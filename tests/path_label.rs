use nix_shell_wrapper::path_label::make_pretty;

fn comps(parts: &[&str]) -> Vec<String> {
    parts.iter().map(|p| p.to_string()).collect()
}

#[test]
fn path_in_home_starts_with_tilde() {
    let home = comps(&["home", "u"]);
    assert_eq!(
        make_pretty(&comps(&["home", "u", "repo", "dev.nix"]), &home),
        Some(String::from("~/repo/dev.nix"))
    );
    assert_eq!(make_pretty(&comps(&["home", "u", "repo"]), &home), Some(String::from("~/repo")));
}

#[test]
fn path_outside_home_is_shown_from_the_root() {
    let home = comps(&["home", "u"]);
    assert_eq!(
        make_pretty(&comps(&["nix", "store", "abc"]), &home),
        Some(String::from("/nix/store/abc"))
    );
    assert_eq!(
        make_pretty(&comps(&["home", "user", "x"]), &home),
        Some(String::from("/home/user/x"))
    );
}

#[test]
fn long_path_is_cut_from_the_root() {
    let home = comps(&["home", "u"]);
    assert_eq!(
        make_pretty(&comps(&["home", "u", "projects", "some-long-name", "sub", "dev.nix"]), &home),
        Some(String::from("…/sub/dev.nix"))
    );
    assert_eq!(
        make_pretty(&comps(&["srv", "a-very-long-directory-name-here"]), &home),
        Some(String::from("…/a-very-long-directory-name-here"))
    );
}

#[test]
fn limit_is_twenty_five_characters() {
    let home = comps(&["h"]);
    // "/aaaaaaaaaaa/bbbbbbbbbbb" has 24 characters and is kept.
    assert_eq!(
        make_pretty(&comps(&["aaaaaaaaaaa", "bbbbbbbbbbb"]), &home),
        Some(String::from("/aaaaaaaaaaa/bbbbbbbbbbb"))
    );
    // "/aaaaaaaaaaaa/bbbbbbbbbbb" has 25 and is not.
    assert_eq!(
        make_pretty(&comps(&["aaaaaaaaaaaa", "bbbbbbbbbbb"]), &home),
        Some(String::from("…/bbbbbbbbbbb"))
    );
}

#[test]
fn root_and_home_itself_have_no_label() {
    let home = comps(&["home", "u"]);
    assert_eq!(make_pretty(&comps(&[]), &home), None);
    assert_eq!(make_pretty(&comps(&["home", "u"]), &home), None);
}
