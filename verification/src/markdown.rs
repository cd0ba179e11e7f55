//! Trusted bridge to the markdown renderer.

use vstd::prelude::*;

verus! {

/// What the markdown renderer makes of a text: a function of the text and
/// of the escape mode alone. Reader-submitted comments are rendered with
/// raw HTML escaped; article bodies are not escaped (their embedded HTML is
/// sanitized away by the renderer's default rather than passed through).
pub uninterp spec fn html_of(text: Seq<char>, escaped: bool) -> Seq<char>;

/// Relies on `comrak::markdown_to_html`: deterministic rendering under the
/// engine's fixed option set (strikethrough, tables, autolinks and
/// footnotes on).
#[verifier::external_body]
pub fn render_markdown(text: &str, escaped: bool) -> (r: String)
    ensures
        r@ == html_of(text@, escaped),
{
    let mut options = comrak::Options::default();
    options.extension.strikethrough = true;
    options.extension.table = true;
    options.extension.autolink = true;
    options.extension.footnotes = true;
    options.render.github_pre_lang = true;
    options.render.escape = escaped;
    comrak::markdown_to_html(text, &options)
}

} // verus!
