use nix_shell_wrapper::nix_expr::{assemble_full, expr_prefix, ExprContext, NamedFlake};

fn default_ctx() -> ExprContext {
    ExprContext { system_flake: None, system: String::from("x86_64-linux") }
}

fn flake(name: &str, path: &str) -> NamedFlake {
    NamedFlake { name: name.to_string(), path: path.to_string() }
}

const DEFAULT_PREFIX: &str = "let\n  nixpkgs = builtins.getFlake \"nixpkgs\";\n  pkgs = import nixpkgs { system = \"x86_64-linux\"; };\nin\nwith pkgs; [";

#[test]
fn default_prefix_binds_nixpkgs() {
    assert_eq!(expr_prefix(&Vec::new(), &default_ctx()), DEFAULT_PREFIX);
}

#[test]
fn system_flake_prefix() {
    let ctx = ExprContext {
        system_flake: Some(String::from("/etc/nixos")),
        system: String::from("aarch64-darwin"),
    };
    assert_eq!(
        expr_prefix(&Vec::new(), &ctx),
        "let\n  systemFlake = builtins.getFlake \"/etc/nixos\";\nin\nwith systemFlake.nix-shell-wrapper-pkgs.\"aarch64-darwin\".default; ["
    );
}

#[test]
fn named_flakes_are_bound_but_not_in_scope() {
    let flakes = vec![flake("my", "/abs/path"), flake("other", "/x")];
    let e = expr_prefix(&flakes, &default_ctx());
    assert_eq!(
        e,
        "let\n  nixpkgs = builtins.getFlake \"nixpkgs\";\n  pkgs = import nixpkgs { system = \"x86_64-linux\"; };\n  my = builtins.getFlake \"/abs/path\";\n  other = builtins.getFlake \"/x\";\nin\nwith pkgs; ["
    );
    assert_eq!(e.matches("my = builtins.getFlake \"/abs/path\";").count(), 1);
}

#[test]
fn paths_are_escaped_as_nix_strings() {
    let flakes = vec![flake("q", "/a\"b\\c${d}")];
    let e = expr_prefix(&flakes, &default_ctx());
    assert!(e.contains("  q = builtins.getFlake \"/a\\\"b\\\\c\\${d}\";\n"));
}

#[test]
fn full_expression_lists_each_expression() {
    let exprs = vec![String::from("hello"), String::from("cowsay")];
    let e = assemble_full(&Vec::new(), &exprs, &default_ctx());
    assert_eq!(e, format!("{DEFAULT_PREFIX}(hello) (cowsay) ]"));
    assert!(e.ends_with(']'));
    assert_eq!(e.matches('[').count(), 1);
}

#[test]
fn full_expression_without_expressions() {
    let e = assemble_full(&vec![flake("my", "/p")], &Vec::new(), &default_ctx());
    assert!(e.ends_with("with pkgs; []"));
    assert_eq!(e.matches('[').count(), 1);
}
