use gcal_imp::links::find_link;

#[test]
fn markdown_link_target_wins() {
    assert_eq!(
        find_link("see https://plain.example and [docs](https://docs.example/a b)"),
        Some("https://docs.example/a b".to_string())
    );
}

#[test]
fn bare_address_stops_at_space_or_paren() {
    assert_eq!(find_link("go to http://x.example/p?q=1 now"), Some("http://x.example/p?q=1".to_string()));
    assert_eq!(find_link("(https://y.example)"), Some("https://y.example".to_string()));
}

#[test]
fn lines_without_links_give_nothing() {
    assert_eq!(find_link("no link here"), None);
    assert_eq!(find_link("[empty]() and http://"), None);
    assert_eq!(find_link(""), None);
}

#[test]
fn broken_markdown_falls_back_to_bare_address() {
    assert_eq!(find_link("[x] (https://a.example)"), Some("https://a.example".to_string()));
    assert_eq!(find_link("[](https://b.example)"), Some("https://b.example".to_string()));
}
