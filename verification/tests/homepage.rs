use yalich::github::homepage_to_repo;

#[test]
fn homepage_of_a_repository_gives_owner_and_name() {
    assert_eq!(homepage_to_repo("https://github.com/acme/widget"), Some(("acme", "widget")));
}

#[test]
fn homepage_with_trailing_slash_parses_alike() {
    assert_eq!(
        homepage_to_repo("https://github.com/acme/widget/"),
        homepage_to_repo("https://github.com/acme/widget")
    );
    assert_eq!(homepage_to_repo("https://github.com/acme/widget/"), Some(("acme", "widget")));
}

#[test]
fn homepage_with_fragment_parses_alike() {
    assert_eq!(
        homepage_to_repo("https://github.com/acme/widget#readme"),
        homepage_to_repo("https://github.com/acme/widget")
    );
    assert_eq!(
        homepage_to_repo("https://github.com/acme/widget#readme"),
        Some(("acme", "widget"))
    );
}

#[test]
fn homepage_with_slash_and_fragment_parses_alike() {
    assert_eq!(
        homepage_to_repo("https://github.com/acme/widget/#readme"),
        Some(("acme", "widget"))
    );
    assert_eq!(
        homepage_to_repo("https://github.com/acme/widget#a#b/c"),
        Some(("acme", "widget"))
    );
}

#[test]
fn homepage_loses_one_trailing_slash_only() {
    assert_eq!(homepage_to_repo("https://github.com/acme/widget//"), Some(("widget", "")));
}

#[test]
fn homepage_elsewhere_gives_nothing() {
    assert_eq!(homepage_to_repo("https://example.com"), None);
    assert_eq!(homepage_to_repo("https://gitlab.com/acme/widget"), None);
    assert_eq!(homepage_to_repo(""), None);
}

#[test]
fn homepage_with_the_host_in_the_fragment_only_gives_nothing() {
    assert_eq!(homepage_to_repo("https://example.com/a/b#github.com/acme/widget"), None);
}

#[test]
fn homepage_with_fewer_than_two_segments_gives_nothing() {
    assert_eq!(homepage_to_repo("https://github.com"), None);
    assert_eq!(homepage_to_repo("https://github.com/"), None);
    assert_eq!(homepage_to_repo("https://github.com/acme"), None);
    assert_eq!(homepage_to_repo("https://github.com/acme/"), None);
    assert_eq!(homepage_to_repo("github.com"), None);
}

#[test]
fn homepage_deeper_in_a_repository_gives_the_last_two_segments() {
    assert_eq!(
        homepage_to_repo("https://github.com/acme/widget/tree/main"),
        Some(("tree", "main"))
    );
}

#[test]
fn homepage_without_scheme_gives_owner_and_name() {
    assert_eq!(homepage_to_repo("github.com/acme/widget"), Some(("acme", "widget")));
    assert_eq!(homepage_to_repo("http://www.github.com/acme/widget"), Some(("acme", "widget")));
}

#[test]
fn homepage_with_letters_beyond_ascii_is_cut_by_characters() {
    assert_eq!(homepage_to_repo("https://github.com/añc/wídget/"), Some(("añc", "wídget")));
    assert_eq!(homepage_to_repo("https://ü.github.com/日本/語#é"), Some(("日本", "語")));
}
