use nix_shell_wrapper::string_truncation::{
    grapheme_count, trim_and_replace_whitespace, truncate_string,
};

fn label(s: &str) -> String {
    truncate_string(s).expect("every text has a label")
}

#[test]
fn test_truncate_string() {
    assert_eq!(truncate_string("hello"), Some(String::from("hello")));
    assert_eq!(truncate_string(" hello "), Some(String::from("hello")));
    assert_eq!(truncate_string(" hello world "), Some(String::from("hello·world")));
    assert_eq!(truncate_string("a brave boy!!!!!!!!"), Some(String::from("a·brave·boy…")));
    assert_eq!(
        truncate_string("a whole wooooooorld"),
        Some(String::from("a·whole·wooooooor…"))
    );
    assert_eq!(truncate_string("a whole new wooorld"), Some(String::from("a·whole·new…")));
    assert_eq!(
        truncate_string(" a b c d e f g h i j "),
        Some(String::from("a·b·c·d·e·f·g·h·i…"))
    );
}

#[test]
fn grapheme_count_counts_clusters_not_chars() {
    assert_eq!(grapheme_count(""), 0);
    assert_eq!(grapheme_count("abc"), 3);
    assert_eq!(grapheme_count("a\u{301}b"), 2);
    assert_eq!(grapheme_count("🇷🇺🇸🇹"), 2);
}

#[test]
fn trim_and_replace_shows_white_space_as_dots() {
    assert_eq!(trim_and_replace_whitespace("  a  b\t"), "a··b");
    assert_eq!(trim_and_replace_whitespace("   "), "");
    assert_eq!(trim_and_replace_whitespace("x\r\ny"), "x·y");
}

#[test]
fn empty_and_blank_texts_give_empty_labels() {
    assert_eq!(label(""), "");
    assert_eq!(label(" \t "), "");
}

#[test]
fn labels_never_exceed_the_cluster_limit() {
    for s in [
        "pkgs.python3.withPackages (ps: [ ps.numpy ps.scipy ])",
        "aaaaaaaaaaaaaaaaaaaaaaaaaaaaaaaaaaaaaaaa",
        "a b c d e f g h i j k l m n o p q r s t u v w x y z",
        "é\u{301}é\u{301}é\u{301}é\u{301}é\u{301}é\u{301}é\u{301}é\u{301}é\u{301}é\u{301}",
    ] {
        let l = label(s);
        assert!(grapheme_count(&l) <= 18, "{s:?} gave {l:?}");
        assert!(!l.starts_with(char::is_whitespace) && !l.ends_with(char::is_whitespace));
        assert!(!l.contains(' '));
    }
}

#[test]
fn a_single_long_token_is_cut_by_clusters() {
    assert_eq!(label("aaaaaaaaaaaaaaaaaaaaaaaa"), "aaaaaaaaaaaaaaaaa…");
}

#[test]
fn exactly_eighteen_clusters_are_kept_whole() {
    assert_eq!(label("abcdefghijklmnopqr"), "abcdefghijklmnopqr");
    assert_eq!(label("abcdefghijklmnopqrs"), "abcdefghijklmnopq…");
}

#[test]
fn short_texts_get_no_ellipsis() {
    for s in ["hello", "cowsay", "python3 numpy", "a b"] {
        assert!(!label(s).ends_with('…'));
    }
}

#[test]
fn labelling_is_idempotent_on_short_texts() {
    for s in ["hello", " hello world ", "a brave boy!!!!!!!!", "a whole new wooorld"] {
        let once = label(s);
        assert_eq!(label(&once), once);
    }
}
