use nix_shell_wrapper::dispatch::{
    descriptions, join_labels, make_command, make_exprs_command, split_flake_pair, Invocation,
};
use nix_shell_wrapper::nix_expr::{expr_prefix, ExprContext, NamedFlake};

fn ctx() -> ExprContext {
    ExprContext { system_flake: None, system: String::from("x86_64-linux") }
}

fn strings(v: &[&str]) -> Vec<String> {
    v.iter().map(|s| s.to_string()).collect()
}

#[test]
fn shell_mode_runs_nix_shell_on_the_path() {
    let mut env = Vec::new();
    let label = String::from("~/repo/dev.nix");
    let c = make_command(&Invocation::Shell(String::from("./dev.nix")), &ctx(), &label, &mut env)
        .unwrap();
    assert_eq!(c.program, "nix-shell");
    assert_eq!(c.args, strings(&["./dev.nix"]));
    assert_eq!(env, strings(&["~/repo/dev.nix"]));
}

#[test]
fn flake_mode_runs_nix_develop() {
    let mut env = Vec::new();
    let label = String::from("~/repo");
    let c = make_command(&Invocation::Flake(String::from(".")), &ctx(), &label, &mut env).unwrap();
    assert_eq!(c.program, "nix");
    assert_eq!(c.args, strings(&["develop", "."]));
    assert_eq!(env, strings(&["~/repo"]));
}

#[test]
fn positional_expressions_fall_back_to_exprs_mode() {
    let mut env = Vec::new();
    let inv = Invocation::ExprsExternal(strings(&["hello", "cowsay"]));
    let c = make_command(&inv, &ctx(), &String::new(), &mut env).unwrap();
    assert_eq!(c.program, "nix");
    let prefix = expr_prefix(&Vec::new(), &ctx());
    assert_eq!(
        c.args,
        vec![
            String::from("shell"),
            String::from("--impure"),
            String::from("--expr"),
            format!("{prefix}(hello) (cowsay) ]"),
        ]
    );
    assert!(c.args[3].ends_with("with pkgs; [(hello) (cowsay) ]"));
    assert_eq!(join_labels(&env), "hello+cowsay");
}

#[test]
fn exprs_mode_binds_named_flakes() {
    let mut env = Vec::new();
    let flakes = vec![NamedFlake { name: String::from("my"), path: String::from("/abs/path") }];
    let inv = Invocation::Exprs(flakes, strings(&["hello"]));
    let c = make_command(&inv, &ctx(), &String::new(), &mut env).unwrap();
    let e = &c.args[3];
    assert!(e.contains("  my = builtins.getFlake \"/abs/path\";\n"));
    assert!(e.contains("with pkgs; ["));
    assert!(!e.contains("with my"));
    assert_eq!(join_labels(&env), "hello");
}

#[test]
fn derivation_mode_calls_the_file() {
    let mut env = Vec::new();
    let inv = Invocation::Derivation(String::from("./pkg.nix"), String::from("{}"));
    let c = make_command(&inv, &ctx(), &String::new(), &mut env).unwrap();
    let prefix = expr_prefix(&Vec::new(), &ctx());
    assert_eq!(c.args[3], format!("{prefix}(callPackage ./pkg.nix {{}}) ]"));
    assert_eq!(env, strings(&["./pkg.nix"]));
}

#[test]
fn exprs_command_appends_labels_after_existing_ones() {
    let mut env = strings(&["first"]);
    let c = make_exprs_command(&strings(&["a whole new wooorld"]), &Vec::new(), &ctx(), &mut env);
    assert!(c.is_some());
    assert_eq!(env, strings(&["first", "a·whole·new…"]));
}

#[test]
fn nested_invocation_extends_the_breadcrumb() {
    let previous = Some(String::from("foo+bar"));
    assert_eq!(descriptions(&previous, &strings(&["baz"])), "foo+bar baz");
    assert_eq!(descriptions(&None, &strings(&["baz", "qux"])), "baz+qux");
    assert_eq!(descriptions(&None, &Vec::new()), "");
}

#[test]
fn flake_pairs_split_at_the_first_equals() {
    assert_eq!(
        split_flake_pair("my=/abs/path"),
        Some((String::from("my"), String::from("/abs/path")))
    );
    assert_eq!(split_flake_pair("a=b=c"), Some((String::from("a"), String::from("b=c"))));
    assert_eq!(split_flake_pair("=x"), Some((String::new(), String::from("x"))));
    assert_eq!(split_flake_pair("nope"), None);
}
