//! Assembly of the HTML pages this library serves: the rendered document
//! page and the document index.

use vstd::prelude::*;
use crate::markdown::{rendered_html_of, try_render_markdown};
use crate::utils::{file_name_part, last_dot, stem_of};

verus! {

/// The stylesheet served with every page.
pub open spec fn styles_spec() -> Seq<char> {
    "body{font-family:sans-serif;margin:0;color:#1f2328;}main{max-width:48rem;margin:0 auto;padding:2rem;}pre{background:#f6f8fa;padding:1rem;overflow:auto;}code{font-family:monospace;}table{border-collapse:collapse;}td,th{border:1px solid #d0d7de;padding:0.4rem 0.6rem;}blockquote{border-left:4px solid #d0d7de;margin-left:0;padding-left:1rem;color:#59636e;}img{max-width:100%;}"@
}

/// The client script served with every document page: it subscribes to the
/// document's update stream and applies content and cursor messages.
pub open spec fn scripts_spec() -> Seq<char> {
    "const src = new EventSource(window.location.pathname + '/updates');\nsrc.addEventListener('file_changed', (e) => {\n  document.querySelector('main').innerHTML = JSON.parse(e.data).html;\n});\nsrc.addEventListener('position', (e) => {\n  const pos = JSON.parse(e.data).sourcepos;\n  const el = document.querySelector('[data-sourcepos^=\"' + pos.split('-')[0] + '\"]');\n  if (el) { el.scrollIntoView({block: 'center'}); }\n});"@
}

/// The title used when none is given and when the path has none.
pub open spec fn default_title() -> Seq<char> {
    "Markdown Document"@
}

/// A full document page: HTML head with title and styles, the content in
/// `main`, and the client script.
pub open spec fn spec_page(content: Seq<char>, title: Seq<char>) -> Seq<char> {
    "<!DOCTYPE html>\n<html lang=\"en\">\n<head>\n    <meta charset=\"UTF-8\">\n    <meta name=\"viewport\" content=\"width=device-width, initial-scale=1.0\">\n    <title>"@
        + title
        + "</title>\n    <style>"@ + styles_spec() + "</style>\n</head>\n<body>\n<main>\n"@
        + content + "\n</main>\n<script>\n"@ + scripts_spec() + "\n</script>\n</body>\n</html>"@
}

/// The stylesheet as a value.
pub fn get_styles() -> (r: String)
    ensures
        r@ == styles_spec(),
{
    "body{font-family:sans-serif;margin:0;color:#1f2328;}main{max-width:48rem;margin:0 auto;padding:2rem;}pre{background:#f6f8fa;padding:1rem;overflow:auto;}code{font-family:monospace;}table{border-collapse:collapse;}td,th{border:1px solid #d0d7de;padding:0.4rem 0.6rem;}blockquote{border-left:4px solid #d0d7de;margin-left:0;padding-left:1rem;color:#59636e;}img{max-width:100%;}".to_owned()
}

fn get_scripts() -> (r: String)
    ensures
        r@ == scripts_spec(),
{
    "const src = new EventSource(window.location.pathname + '/updates');\nsrc.addEventListener('file_changed', (e) => {\n  document.querySelector('main').innerHTML = JSON.parse(e.data).html;\n});\nsrc.addEventListener('position', (e) => {\n  const pos = JSON.parse(e.data).sourcepos;\n  const el = document.querySelector('[data-sourcepos^=\"' + pos.split('-')[0] + '\"]');\n  if (el) { el.scrollIntoView({block: 'center'}); }\n});".to_owned()
}

/// Wraps rendered content in the full HTML page, under the given title or
/// the default one.
pub fn wrap_in_html_template(content: &str, title: Option<&str>) -> (r: String)
    ensures
        r@ == spec_page(
            content@,
            match title {
                Some(t) => t@,
                None => default_title(),
            },
        ),
{
    let mut out =
        "<!DOCTYPE html>\n<html lang=\"en\">\n<head>\n    <meta charset=\"UTF-8\">\n    <meta name=\"viewport\" content=\"width=device-width, initial-scale=1.0\">\n    <title>".to_owned();
    match title {
        Some(t) => out.append(t),
        None => out.append("Markdown Document"),
    }
    out.append("</title>\n    <style>");
    let styles = get_styles();
    out.append(styles.as_str());
    out.append("</style>\n</head>\n<body>\n<main>\n");
    out.append(content);
    out.append("\n</main>\n<script>\n");
    let scripts = get_scripts();
    out.append(scripts.as_str());
    out.append("\n</script>\n</body>\n</html>");
    proof {
        assert(out@ =~= spec_page(
            content@,
            match title {
                Some(t) => t@,
                None => default_title(),
            },
        ));
    }
    out
}

/// The title of the page serving a path: the path's final segment without
/// its extension, or the default title when the path has no segment.
pub open spec fn title_of_path(p: Seq<char>) -> Seq<char> {
    let name = file_name_part(p);
    if name.len() == 0 {
        default_title()
    } else {
        stem_of(name)
    }
}

/// The full page served for a document: its file content rendered to HTML,
/// wrapped under the path-derived title.
pub fn render_document_page(filepath: &str, content: &str) -> (r: String)
    ensures
        r@ == spec_page(rendered_html_of(content@), title_of_path(filepath@)),
{
    let html = match try_render_markdown(content) {
        Ok(h) => h,
        Err(_) => String::new(),
    };
    let name = crate::utils::file_name_of(filepath);
    if name.unicode_len() == 0 {
        wrap_in_html_template(html.as_str(), None)
    } else {
        let title = crate::utils::stem_of_exec(name.as_str());
        wrap_in_html_template(html.as_str(), Some(title.as_str()))
    }
}

/// One entry of the document index.
pub open spec fn index_item(id: Seq<char>, path: Seq<char>) -> Seq<char> {
    "<li><a href=\"/document/"@ + id + "\">"@ + path + "</a></li>\n"@
}

/// The concatenated entries of the document index.
pub open spec fn index_items(docs: Seq<(Seq<char>, Seq<char>)>) -> Seq<char>
    decreases docs.len(),
{
    if docs.len() == 0 {
        Seq::empty()
    } else {
        index_items(docs.drop_last()) + index_item(docs.last().0, docs.last().1)
    }
}

/// The document index page.
pub open spec fn spec_index_page(docs: Seq<(Seq<char>, Seq<char>)>) -> Seq<char> {
    "<!DOCTYPE html>\n<html lang=\"en\">\n<head>\n    <meta charset=\"UTF-8\">\n    <meta name=\"viewport\" content=\"width=device-width, initial-scale=1.0\">\n    <title>Documents</title>\n    <style>"@
        + styles_spec()
        + "</style>\n</head>\n<body>\n<main>\n<h1>Documents</h1>\n<ul>"@ + index_items(docs)
        + "</ul>\n</main>\n</body>\n</html>"@
}

/// Builds the index page listing every registered document as a link.
pub fn documents_index_page(docs: &Vec<(String, String)>) -> (r: String)
    ensures
        r@ == spec_index_page(docs.deep_view()),
{
    let mut out =
        "<!DOCTYPE html>\n<html lang=\"en\">\n<head>\n    <meta charset=\"UTF-8\">\n    <meta name=\"viewport\" content=\"width=device-width, initial-scale=1.0\">\n    <title>Documents</title>\n    <style>".to_owned();
    let styles = get_styles();
    out.append(styles.as_str());
    out.append("</style>\n</head>\n<body>\n<main>\n<h1>Documents</h1>\n<ul>");
    let ghost head = out@;
    let n = docs.len();
    let mut i: usize = 0;
    while i < n
        invariant
            n == docs@.len(),
            i <= n,
            out@ =~= head + index_items(docs.deep_view().take(i as int)),
        decreases n - i,
    {
        out.append("<li><a href=\"/document/");
        out.append(docs[i].0.as_str());
        out.append("\">");
        out.append(docs[i].1.as_str());
        out.append("</a></li>\n");
        proof {
            let dv = docs.deep_view();
            assert(dv.take(i + 1 as int).drop_last() =~= dv.take(i as int));
            assert(dv.take(i + 1 as int).last() == dv[i as int]);
            assert(dv[i as int].0 == docs@[i as int].0@ && dv[i as int].1 == docs@[i as int].1@);
            assert(out@ =~= head + index_items(dv.take(i + 1 as int)));
        }
        i = i + 1;
    }
    proof {
        assert(docs.deep_view().take(n as int) =~= docs.deep_view());
    }
    out.append("</ul>\n</main>\n</body>\n</html>");
    proof {
        assert(out@ =~= spec_index_page(docs.deep_view()));
    }
    out
}

} // verus!
