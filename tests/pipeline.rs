use mdvim::document::{AppState, FileInfo};
use mdvim::headings::{extract_headings, Heading};
use mdvim::pipeline::{count_lines, export_html, parse_markdown};
use mdvim::slug::{slugify, slugify_lowered};
use mdvim::split::count_words;

fn heading(h: &Heading) -> (u8, &str, &str) {
    (h.level, h.text.as_str(), h.id.as_str())
}

#[test]
fn hello_world_document() {
    let r = parse_markdown("# Hello World");
    assert_eq!(r.headings.len(), 1);
    assert_eq!(heading(&r.headings[0]), (1, "Hello World", "hello-world"));
    // "#", "Hello" and "World": the mark is a word of its own.
    assert_eq!(r.word_count, 3);
    assert_eq!(r.char_count, 13);
    assert_eq!(r.line_count, 1);
    assert!(r.html.contains("<h1>Hello World</h1>"));
}

#[test]
fn dotted_section_number() {
    let r = parse_markdown("## Section 1.2");
    assert_eq!(r.headings.len(), 1);
    assert_eq!(heading(&r.headings[0]), (2, "Section 1.2", "section-1_2"));
}

#[test]
fn seven_marks_is_no_heading() {
    let r = parse_markdown("####### too deep");
    assert!(r.headings.is_empty());
}

#[test]
fn very_long_mark_run_is_no_heading() {
    let line = format!("{} x", "#".repeat(257));
    assert!(extract_headings(&line).is_empty());
}

#[test]
fn duplicate_headings_keep_duplicate_ids() {
    let r = parse_markdown("# Foo\n# Foo");
    assert_eq!(r.headings.len(), 2);
    assert_eq!(heading(&r.headings[0]), (1, "Foo", "foo"));
    assert_eq!(heading(&r.headings[1]), (1, "Foo", "foo"));
}

#[test]
fn japanese_heading() {
    let r = parse_markdown("# 日本語 見出し");
    assert_eq!(r.headings.len(), 1);
    assert_eq!(heading(&r.headings[0]), (1, "日本語 見出し", "日本語-見出し"));
}

#[test]
fn task_list() {
    let r = parse_markdown("- [x] done\n- [ ] todo");
    assert!(r.headings.is_empty());
    // "-", "[x]", "done", "-", "[", "]" and "todo".
    assert_eq!(r.word_count, 7);
    assert!(r.html.contains("type=\"checkbox\""));
    assert!(r.html.contains("checked"));
}

#[test]
fn smart_punctuation() {
    let r = parse_markdown("\"hello\" -- world");
    assert!(r.html.contains("\u{201c}hello\u{201d}"));
    assert!(r.html.contains("\u{2013}"));
}

#[test]
fn other_extensions_are_on() {
    let r = parse_markdown("| a | b |\n|---|---|\n| 1 | 2 |\n\n~~gone~~ note[^1]\n\n[^1]: foot");
    assert!(r.html.contains("<table>"));
    assert!(r.html.contains("<del>gone</del>"));
    assert!(r.html.contains("footnote"));
}

#[test]
fn heading_order_follows_lines() {
    let hs = extract_headings("# One\ntext\n### Three\n## Two\n");
    assert_eq!(hs.len(), 3);
    assert_eq!(heading(&hs[0]), (1, "One", "one"));
    assert_eq!(heading(&hs[1]), (3, "Three", "three"));
    assert_eq!(heading(&hs[2]), (2, "Two", "two"));
}

#[test]
fn heading_line_rules() {
    let hs = extract_headings("   ## indented\n#tight\n#\ttab\n# trailing #\n```\n# in code\n```\nnot # heading\n");
    let got: Vec<(u8, &str, &str)> = hs.iter().map(heading).collect();
    assert_eq!(
        got,
        vec![
            (2, "indented", "indented"),
            (1, "tight", "tight"),
            (1, "\ttab", "tab"),
            (1, "trailing #", "trailing-_"),
            (1, "in code", "in-code"),
        ]
    );
}

#[test]
fn heading_with_crlf_and_empty_text() {
    let hs = extract_headings("# A\r\n##\r\n");
    assert_eq!(hs.len(), 2);
    assert_eq!(heading(&hs[0]), (1, "A", "a"));
    assert_eq!(heading(&hs[1]), (2, "", ""));
}

#[test]
fn line_counts() {
    assert_eq!(parse_markdown("").line_count, 0);
    assert_eq!(parse_markdown("a").line_count, 1);
    assert_eq!(parse_markdown("a\n").line_count, 1);
    assert_eq!(parse_markdown("a\nb").line_count, 2);
    assert_eq!(count_lines("\n"), 1);
    assert_eq!(count_lines("a\r\nb\r\n"), 2);
    assert_eq!(count_lines("a\n\n\nb"), 4);
}

#[test]
fn char_count_is_scalars() {
    assert_eq!(parse_markdown("日本").char_count, 2);
    assert_eq!(parse_markdown("").char_count, 0);
    assert_eq!(parse_markdown("a\r\n").char_count, 3);
}

#[test]
fn word_counts() {
    assert_eq!(count_words("  hello   world  "), 2);
    assert_eq!(count_words(""), 0);
    assert_eq!(count_words("one\ttwo\nthree\u{3000}four"), 4);
    assert_eq!(count_words("don't, stop!"), 2);
    assert_eq!(count_words(" \n \t "), 0);
}

#[test]
fn slug_cases() {
    assert_eq!(slugify("Hello World"), "hello-world");
    assert_eq!(slugify("  --Foo--  Bar!! "), "foo-bar__");
    assert_eq!(slugify("a.b"), "a_b");
    assert_eq!(slugify("ÀÉ ü"), "àé-ü");
    assert_eq!(slugify("snake_case-name"), "snake_case-name");
    assert_eq!(slugify(""), "");
    assert_eq!(slugify(" - "), "");
}

#[test]
fn slug_of_lowered_text_keeps_case() {
    assert_eq!(slugify_lowered("AB cd"), "AB-cd");
    assert_eq!(slugify_lowered("x  y"), "x-y");
}

#[test]
fn slug_shape_on_samples() {
    for t in ["  a -- b  ", "--", "\t x\u{3000}y ", "a!!-!!b", "- x -"] {
        let s = slugify(t);
        assert!(!s.chars().any(char::is_whitespace));
        assert!(!s.contains("--"));
        assert!(!s.starts_with('-') && !s.ends_with('-'));
    }
}

#[test]
fn pipeline_is_deterministic() {
    let a = parse_markdown("# T\nsome words here\n## U");
    let b = parse_markdown("# T\nsome words here\n## U");
    assert_eq!(a.html, b.html);
    assert_eq!(a.headings.len(), b.headings.len());
    for (x, y) in a.headings.iter().zip(b.headings.iter()) {
        assert_eq!(heading(x), heading(y));
    }
    assert_eq!((a.word_count, a.char_count, a.line_count), (b.word_count, b.char_count, b.line_count));
}

#[test]
fn headings_have_bounded_levels_and_slug_ids() {
    let r = parse_markdown("# a\n## b\n### c\n#### d\n##### e\n###### f\n####### g");
    assert_eq!(r.headings.len(), 6);
    for h in &r.headings {
        assert!(1 <= h.level && h.level <= 6);
        assert_eq!(h.id, slugify(&h.text));
    }
}

#[test]
fn export_wraps_rendered_html() {
    let page = export_html("# Title", "My Doc");
    let body = parse_markdown("# Title").html;
    assert!(page.starts_with("<!DOCTYPE html>\n<html lang=\"ja\">\n<head>\n"));
    assert!(page.contains("<title>My Doc</title>"));
    assert!(page.contains("        a { color: #0066cc; }\n    </style>\n</head>\n<body>\n"));
    assert!(page.ends_with(&format!("<body>\n{}\n</body>\n</html>", body)));
}

#[test]
fn opened_file_info() {
    let f = FileInfo::opened("/tmp/a.md", Some("a.md".to_string()), "x".to_string());
    assert_eq!((f.path.as_str(), f.name.as_str(), f.content.as_str(), f.modified), ("/tmp/a.md", "a.md", "x", false));
    let g = FileInfo::opened("/", None, String::new());
    assert_eq!(g.name, "Untitled");
}

#[test]
fn app_state_starts_empty() {
    let s = AppState::default();
    assert!(s.current_file.is_none());
}
