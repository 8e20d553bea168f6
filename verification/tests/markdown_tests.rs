use livemarkdown::markdown::{render_to_html, try_render_markdown};

const SIMPLE_MARKDOWN: &str = "# Simple Document\n\nA paragraph of text.\n";

const COMPLEX_MARKDOWN: &str = "# Complex Document\n\nSome text with **bold** and ~struck~ parts.\n\n- first item\n- second item\n\n| a | b |\n|---|---|\n| c | d |\n\n- [ ] open task\n- [x] done task\n";

#[test]
fn test_simple_markdown_rendering() {
    let html = render_to_html(SIMPLE_MARKDOWN);

    assert!(!html.is_empty());
    assert!(html.contains("<h1"));
    assert!(html.contains("data-sourcepos"));
}

#[test]
fn test_complex_markdown_rendering() {
    let html = render_to_html(COMPLEX_MARKDOWN);

    assert!(!html.is_empty());
    assert!(html.contains("data-sourcepos"));

    if COMPLEX_MARKDOWN.contains("# ") {
        assert!(html.contains("<h1"));
    }
    if COMPLEX_MARKDOWN.contains("- ") || COMPLEX_MARKDOWN.contains("* ") {
        assert!(html.contains("<ul") || html.contains("<li"));
    }
    if COMPLEX_MARKDOWN.contains("|") {
        assert!(html.contains("<table") || html.contains("<th") || html.contains("<td"));
    }
}

#[test]
fn test_sourcepos_enabled() {
    let markdown = "# Test Header\n\nSome paragraph text.";
    let html = render_to_html(markdown);

    assert!(html.contains("data-sourcepos"));
}

#[test]
fn try_render_always_succeeds() {
    let html = try_render_markdown("plain *emphasis*").unwrap();
    assert!(html.contains("<em"));
    assert!(html.contains("emphasis</em>"));
}
