use gcal_imp::html::{anchor_text, strip_html};

#[test]
fn anchor_tags_include_url_after_strip() {
    let html = r#"<p>Visit <a href="https://example.com">Example</a> now.</p>"#;
    let text = strip_html(html);
    assert!(text.contains("Example (https://example.com)"));
}

#[test]
fn anchor_without_text_falls_back_to_url() {
    let html = r#"<a href="https://example.com"></a>"#;
    let text = strip_html(html);
    assert!(text.contains("https://example.com"));
}

#[test]
fn anchor_reading_rules() {
    assert_eq!(anchor_text(" https://a.example ", "  Docs "), "Docs (https://a.example)");
    assert_eq!(anchor_text("https://a.example", "HTTPS://A.EXAMPLE"), "https://a.example");
    assert_eq!(anchor_text("https://a.example", "   "), "https://a.example");
}
