//! Markdown rendering, delegated to the `comrak` crate.
//!
//! The renderer is a pure text transform: its output depends on the input
//! text and a fixed set of options alone, so the result is named by an
//! uninterpreted function and everything downstream is stated over that
//! name.

use vstd::prelude::*;

verus! {

/// What the markdown renderer returns for a source text: HTML with source
/// positions, under the fixed option set below. A function of the text
/// alone.
pub uninterp spec fn rendered_html_of(s: Seq<char>) -> Seq<char>;

/// Relies on comrak's `markdown_to_html_with_plugins`: a pure markdown to
/// HTML transform, deterministic in the input text for a fixed set of
/// options, with source-position attributes enabled.
#[verifier::external_body]
pub fn render_to_html(markdown_content: &str) -> (r: String)
    ensures
        r@ == rendered_html_of(markdown_content@),
{
    let mut options = comrak::Options::default();
    options.render.sourcepos = true;
    options.extension.strikethrough = true;
    options.extension.table = true;
    options.extension.autolink = true;
    options.extension.tasklist = true;
    options.extension.superscript = true;
    options.extension.header_id_prefix = Some("".to_string());
    options.extension.footnotes = true;
    options.extension.description_lists = true;
    options.extension.front_matter_delimiter = Some("---".to_string());
    let plugins = comrak::options::Plugins::default();
    comrak::markdown_to_html_with_plugins(markdown_content, &options, &plugins)
}

/// Renders markdown, with failure reported as a result. The renderer is
/// total, so this always succeeds.
pub fn try_render_markdown(content: &str) -> (r: Result<String, ()>)
    ensures
        r matches Ok(h) && h@ == rendered_html_of(content@),
{
    Ok(render_to_html(content))
}

} // verus!
