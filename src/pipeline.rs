use vstd::prelude::*;
use vstd::string::StringExecFns;
use crate::headings::{extract_headings, heading_views, headings_of, Heading, HeadingView};
use crate::render::{markdown_html, render_html};
use crate::split::{count_words, lines_of, split_lines, word_count_of};
use crate::text::chars_of;

verus! {

/// What the analysis of a Markdown text yields.
#[derive(Debug)]
pub struct ParseResult {
    pub html: String,
    pub headings: Vec<Heading>,
    pub word_count: usize,
    pub char_count: usize,
    pub line_count: usize,
}

/// The mathematical value of a `ParseResult`.
pub struct ParseResultView {
    pub html: Seq<char>,
    pub headings: Seq<HeadingView>,
    pub word_count: nat,
    pub char_count: nat,
    pub line_count: nat,
}

impl View for ParseResult {
    type V = ParseResultView;

    open spec fn view(&self) -> ParseResultView {
        ParseResultView {
            html: self.html@,
            headings: heading_views(self.headings@),
            word_count: self.word_count as nat,
            char_count: self.char_count as nat,
            line_count: self.line_count as nat,
        }
    }
}

/// The HTML of a Markdown text, with tables, footnotes, strikethrough, task
/// lists and smart punctuation all switched on.
pub open spec fn html_of(s: Seq<char>) -> Seq<char> {
    markdown_html(s, true, true, true, true, true)
}

/// The whole analysis of a Markdown text.
pub open spec fn pipeline(s: Seq<char>) -> ParseResultView {
    ParseResultView {
        html: html_of(s),
        headings: headings_of(s),
        word_count: word_count_of(s),
        char_count: s.len(),
        line_count: lines_of(s).len(),
    }
}

/// The number of lines of `content`.
pub fn count_lines(content: &str) -> (r: usize)
    ensures
        r == lines_of(content@).len(),
{
    let s = chars_of(content);
    let lines = split_lines(&s);
    lines.len()
}

/// Renders `content` and analyses it: its headings and its statistics.
pub fn parse_markdown(content: &str) -> (r: ParseResult)
    ensures
        r@ == pipeline(content@),
{
    let html = render_html(content, true, true, true, true, true);
    let headings = extract_headings(content);
    let word_count = count_words(content);
    let char_count = chars_of(content).len();
    let line_count = count_lines(content);
    ParseResult { html, headings, word_count, char_count, line_count }
}

/// The start of an exported page, up to its title.
pub const EXPORT_HEAD: &'static str = "<!DOCTYPE html>
<html lang=\"ja\">
<head>
    <meta charset=\"UTF-8\">
    <meta name=\"viewport\" content=\"width=device-width, initial-scale=1.0\">
    <title>";

/// What stands between the title and the body of an exported page.
pub const EXPORT_STYLE: &'static str = "</title>
    <style>
        body {
            font-family: -apple-system, BlinkMacSystemFont, 'Segoe UI', Roboto, sans-serif;
            max-width: 800px;
            margin: 0 auto;
            padding: 2rem;
            line-height: 1.6;
            color: #333;
        }
        h1, h2, h3, h4, h5, h6 { margin-top: 1.5em; }
        code {
            background: #f4f4f4;
            padding: 0.2em 0.4em;
            border-radius: 3px;
            font-family: 'JetBrains Mono', Consolas, monospace;
        }
        pre {
            background: #f4f4f4;
            padding: 1em;
            border-radius: 6px;
            overflow-x: auto;
        }
        pre code { background: none; padding: 0; }
        blockquote {
            border-left: 4px solid #ddd;
            margin: 0;
            padding-left: 1em;
            color: #666;
        }
        table { border-collapse: collapse; width: 100%; }
        th, td { border: 1px solid #ddd; padding: 0.5em; text-align: left; }
        th { background: #f4f4f4; }
        img { max-width: 100%; }
        a { color: #0066cc; }
    </style>
</head>
<body>
";

/// The end of an exported page, after its body.
pub const EXPORT_TAIL: &'static str = "
</body>
</html>";

/// A complete HTML page for `content`: the fixed head with `title`, the
/// default style sheet, and the rendered HTML as its body.
pub fn export_html(content: &str, title: &str) -> (r: String)
    ensures
        r@ == EXPORT_HEAD@ + title@ + EXPORT_STYLE@ + html_of(content@) + EXPORT_TAIL@,
{
    let parsed = parse_markdown(content);
    let mut page = String::from_str(EXPORT_HEAD);
    page.append(title);
    page.append(EXPORT_STYLE);
    page.append(parsed.html.as_str());
    page.append(EXPORT_TAIL);
    page
}

} // verus!
