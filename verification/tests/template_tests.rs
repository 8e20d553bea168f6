use livemarkdown::html_template::{documents_index_page, get_styles, wrap_in_html_template};

#[test]
fn test_wrap_with_default_title() {
    let content = "<h1>Test Content</h1>";
    let html = wrap_in_html_template(content, None);

    assert!(html.contains("<!DOCTYPE html>"));
    assert!(html.contains("<title>Markdown Document</title>"));
    assert!(html.contains("<h1>Test Content</h1>"));
    assert!(html.contains("<style>"));
    assert!(html.contains("</style>"));
}

#[test]
fn test_wrap_with_custom_title() {
    let content = "<p>Some content</p>";
    let title = "My Custom Title";
    let html = wrap_in_html_template(content, Some(title));

    assert!(html.contains("<!DOCTYPE html>"));
    assert!(html.contains("<title>My Custom Title</title>"));
    assert!(html.contains("<p>Some content</p>"));
}

#[test]
fn test_html_structure() {
    let content = "<div>test</div>";
    let html = wrap_in_html_template(content, Some("Test"));

    assert!(html.contains("<!DOCTYPE html>"));
    assert!(html.contains(r#"<html lang="en">"#));
    assert!(html.contains(r#"<meta charset="UTF-8">"#));
    assert!(
        html.contains(r#"<meta name="viewport" content="width=device-width, initial-scale=1.0">"#)
    );
    assert!(html.contains("</html>"));
}

#[test]
fn styles_are_embedded() {
    let html = wrap_in_html_template("<p>x</p>", None);
    let styles = get_styles();
    assert!(!styles.is_empty());
    assert!(html.contains(styles.as_str()));
}

#[test]
fn index_page_links_every_document() {
    let docs = vec![
        ("a-1".to_string(), "/path/to/first.md".to_string()),
        ("b-2".to_string(), "/path/to/second.md".to_string()),
    ];
    let html = documents_index_page(&docs);
    assert!(html.contains("<h1>Documents</h1>"));
    assert!(html.contains("<ul>"));
    assert!(html.contains(r#"<li><a href="/document/a-1">/path/to/first.md</a></li>"#));
    assert!(html.contains(r#"<li><a href="/document/b-2">/path/to/second.md</a></li>"#));
    assert!(html.ends_with("</ul>\n</main>\n</body>\n</html>"));
}

#[test]
fn index_page_empty_registry() {
    let docs: Vec<(String, String)> = Vec::new();
    let html = documents_index_page(&docs);
    assert!(html.contains("<ul></ul>"));
}
