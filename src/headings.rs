use vstd::prelude::*;
use vstd::slice::slice_subrange;
use crate::slug::{slug_of, slugify};
use crate::split::{lines_of, split_lines, views};
use crate::text::{chars_of, is_white_space, is_white_space_char, string_of};

verus! {

/// One ATX heading of a document.
#[derive(Debug)]
pub struct Heading {
    /// The number of `#` marks before the text, from 1 to 6.
    pub level: u8,
    /// The rest of the line after the marks and the spaces that follow them.
    pub text: String,
    /// The anchor derived from `text`.
    pub id: String,
}

/// The mathematical value of a `Heading`.
pub struct HeadingView {
    pub level: nat,
    pub text: Seq<char>,
    pub id: Seq<char>,
}

impl View for Heading {
    type V = HeadingView;

    open spec fn view(&self) -> HeadingView {
        HeadingView { level: self.level as nat, text: self.text@, id: self.id@ }
    }
}

/// Characters skipped before the heading marks.
pub open spec fn white_space() -> spec_fn(char) -> bool {
    |c: char| is_white_space(c)
}

/// The heading mark.
pub open spec fn hash_mark() -> spec_fn(char) -> bool {
    |c: char| c == '#'
}

/// The characters skipped between the marks and the text.
pub open spec fn space() -> spec_fn(char) -> bool {
    |c: char| c == ' '
}

/// The end of the run of characters satisfying `p` that starts at `i`.
pub open spec fn run_end(s: Seq<char>, i: int, p: spec_fn(char) -> bool) -> int
    decreases s.len() - i,
{
    if 0 <= i < s.len() && p(s[i]) {
        run_end(s, i + 1, p)
    } else {
        i
    }
}

/// The heading that a line holds, if any: after leading white space, a run
/// of one to six `#`; the text is what follows, less its leading spaces.
pub open spec fn heading_of_line(l: Seq<char>) -> Option<HeadingView> {
    let a = run_end(l, 0, white_space());
    let b = run_end(l, a, hash_mark());
    if 1 <= b - a <= 6 {
        let text = l.subrange(run_end(l, b, space()), l.len() as int);
        Some(HeadingView { level: (b - a) as nat, text, id: slug_of(text) })
    } else {
        None
    }
}

/// The headings held by a sequence of lines, in order.
pub open spec fn headings_in_lines(ls: Seq<Seq<char>>) -> Seq<HeadingView>
    decreases ls.len(),
{
    if ls.len() == 0 {
        seq![]
    } else {
        match heading_of_line(ls.last()) {
            Some(h) => headings_in_lines(ls.drop_last()).push(h),
            None => headings_in_lines(ls.drop_last()),
        }
    }
}

/// The headings of a document, in the order of its lines.
pub open spec fn headings_of(s: Seq<char>) -> Seq<HeadingView> {
    headings_in_lines(lines_of(s))
}

/// The views of a sequence of headings.
pub open spec fn heading_views(hs: Seq<Heading>) -> Seq<HeadingView> {
    hs.map_values(|h: Heading| h@)
}

/// The heading on one line, if the line holds one.
fn heading_from_line(line: &Vec<char>) -> (r: Option<Heading>)
    ensures
        r is Some ==> heading_of_line(line@) == Some(r->0@),
        r is None ==> heading_of_line(line@) is None,
{
    let ghost l = line@;
    let n = line.len();
    let mut a: usize = 0;
    while a < n && is_white_space_char(line[a])
        invariant
            a <= n == l.len(),
            l == line@,
            run_end(l, 0, white_space()) == run_end(l, a as int, white_space()),
        decreases n - a,
    {
        a = a + 1;
    }
    let mut b: usize = a;
    while b < n && line[b] == '#'
        invariant
            a <= b <= n == l.len(),
            l == line@,
            run_end(l, 0, white_space()) == a,
            run_end(l, a as int, hash_mark()) == run_end(l, b as int, hash_mark()),
        decreases n - b,
    {
        b = b + 1;
    }
    if b - a < 1 || b - a > 6 {
        return None;
    }
    let mut c: usize = b;
    while c < n && line[c] == ' '
        invariant
            b <= c <= n == l.len(),
            l == line@,
            run_end(l, b as int, space()) == run_end(l, c as int, space()),
        decreases n - c,
    {
        c = c + 1;
    }
    let text = string_of(slice_subrange(line.as_slice(), c, n));
    let id = slugify(text.as_str());
    let level = (b - a) as u8;
    Some(Heading { level, text, id })
}

/// The headings of `content`, one for each line that holds one, in order.
pub fn extract_headings(content: &str) -> (r: Vec<Heading>)
    ensures
        heading_views(r@) == headings_of(content@),
{
    let s = chars_of(content);
    let lines = split_lines(&s);
    let ghost ls = views(lines@);
    let mut out: Vec<Heading> = Vec::new();
    let mut i: usize = 0;
    while i < lines.len()
        invariant
            i <= lines@.len(),
            ls == views(lines@),
            heading_views(out@) == headings_in_lines(ls.take(i as int)),
        decreases lines@.len() - i,
    {
        let found = heading_from_line(&lines[i]);
        proof {
            assert(ls.take(i + 1).drop_last() =~= ls.take(i as int));
        }
        match found {
            Some(h) => {
                let ghost before = out@;
                out.push(h);
                assert(heading_views(out@) =~= heading_views(before).push(h@));
            },
            None => {},
        }
        i = i + 1;
    }
    proof {
        assert(ls.take(i as int) =~= ls);
    }
    out
}

} // verus!
