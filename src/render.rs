use vstd::prelude::*;
use pulldown_cmark::{html, Options, Parser};

verus! {

/// The HTML that pulldown-cmark renders for a Markdown text, with the given
/// extensions switched on or off.
pub uninterp spec fn markdown_html(
    s: Seq<char>,
    tables: bool,
    footnotes: bool,
    strikethrough: bool,
    tasklists: bool,
    smart_punctuation: bool,
) -> Seq<char>;

/// Relies on `pulldown_cmark::Parser::new_ext`, with `Options` holding the
/// given extension flags, and on `pulldown_cmark::html::push_html` into an
/// empty string: the rendering is a function of the text and the flags alone.
#[verifier::external_body]
pub(crate) fn render_html(
    content: &str,
    tables: bool,
    footnotes: bool,
    strikethrough: bool,
    tasklists: bool,
    smart_punctuation: bool,
) -> (r: String)
    ensures
        r@ == markdown_html(content@, tables, footnotes, strikethrough, tasklists, smart_punctuation),
{
    let mut options = Options::empty();
    options.set(Options::ENABLE_TABLES, tables);
    options.set(Options::ENABLE_FOOTNOTES, footnotes);
    options.set(Options::ENABLE_STRIKETHROUGH, strikethrough);
    options.set(Options::ENABLE_TASKLISTS, tasklists);
    options.set(Options::ENABLE_SMART_PUNCTUATION, smart_punctuation);
    let mut out = String::new();
    html::push_html(&mut out, Parser::new_ext(content, options));
    out
}

} // verus!
