use vstd::prelude::*;
use crate::text::{chars_of, is_white_space, is_white_space_char};

verus! {

/// The pieces of `s` that end at a separator, when `s` is cut at every
/// character that satisfies `sep` (the separators themselves are dropped).
pub open spec fn closed_pieces(s: Seq<char>, sep: spec_fn(char) -> bool) -> Seq<Seq<char>>
    decreases s.len(),
{
    if s.len() == 0 {
        seq![]
    } else if sep(s.last()) {
        closed_pieces(s.drop_last(), sep).push(open_piece(s.drop_last(), sep))
    } else {
        closed_pieces(s.drop_last(), sep)
    }
}

/// The piece of `s` after its last separator (all of `s` when there is none).
pub open spec fn open_piece(s: Seq<char>, sep: spec_fn(char) -> bool) -> Seq<char>
    decreases s.len(),
{
    if s.len() == 0 {
        seq![]
    } else if sep(s.last()) {
        seq![]
    } else {
        open_piece(s.drop_last(), sep).push(s.last())
    }
}

/// `s` cut at every separator: always one piece more than there are separators.
pub open spec fn split_by(s: Seq<char>, sep: spec_fn(char) -> bool) -> Seq<Seq<char>> {
    closed_pieces(s, sep).push(open_piece(s, sep))
}

/// The pieces of `ps` that are not empty, in order.
pub open spec fn non_empty(ps: Seq<Seq<char>>) -> Seq<Seq<char>>
    decreases ps.len(),
{
    if ps.len() == 0 {
        seq![]
    } else if ps.last().len() == 0 {
        non_empty(ps.drop_last())
    } else {
        non_empty(ps.drop_last()).push(ps.last())
    }
}

/// The pieces of `ps` joined with `sep` between each two of them.
pub open spec fn join(ps: Seq<Seq<char>>, sep: char) -> Seq<char>
    decreases ps.len(),
{
    if ps.len() == 0 {
        seq![]
    } else if ps.len() == 1 {
        ps[0]
    } else {
        join(ps.drop_last(), sep).push(sep) + ps.last()
    }
}

/// A line feed ends a line.
pub open spec fn line_feed() -> spec_fn(char) -> bool {
    |c: char| c == '\n'
}

/// Words are separated by white space, or a line feed.
pub open spec fn word_break() -> spec_fn(char) -> bool {
    |c: char| is_white_space(c) || c == '\n'
}

/// `l` without one trailing carriage return.
pub open spec fn strip_cr(l: Seq<char>) -> Seq<char> {
    if l.len() > 0 && l.last() == '\r' {
        l.drop_last()
    } else {
        l
    }
}

/// The lines of `s`: a line ends at `\n`, a `\r` right before that `\n`
/// is dropped, and a final line feed does not start another (empty) line.
pub open spec fn lines_of(s: Seq<char>) -> Seq<Seq<char>> {
    let ended = closed_pieces(s, line_feed()).map_values(|l: Seq<char>| strip_cr(l));
    if s.len() == 0 || s.last() == '\n' {
        ended
    } else {
        ended.push(open_piece(s, line_feed()))
    }
}

/// The number of words of `s`: the non-empty pieces between word breaks.
pub open spec fn word_count_of(s: Seq<char>) -> nat {
    non_empty(split_by(s, word_break())).len()
}

/// The views of a sequence of character vectors.
pub open spec fn views(v: Seq<Vec<char>>) -> Seq<Seq<char>> {
    v.map_values(|l: Vec<char>| l@)
}

proof fn lemma_take_push(s: Seq<char>, i: int)
    requires
        0 <= i < s.len(),
    ensures
        s.take(i + 1).drop_last() == s.take(i),
        s.take(i + 1).last() == s[i],
{
    assert(s.take(i + 1).drop_last() =~= s.take(i));
}

/// Dropping empty pieces commutes with adding one piece at the end.
pub proof fn lemma_non_empty_push(ps: Seq<Seq<char>>, p: Seq<char>)
    ensures
        non_empty(ps.push(p)) == if p.len() == 0 {
            non_empty(ps)
        } else {
            non_empty(ps).push(p)
        },
{
    assert(ps.push(p).drop_last() =~= ps);
}

/// Joining one more piece adds a separator only when there was a piece before.
pub proof fn lemma_join_push(ps: Seq<Seq<char>>, p: Seq<char>, sep: char)
    ensures
        join(ps.push(p), sep) == if ps.len() == 0 {
            p
        } else {
            join(ps, sep).push(sep) + p
        },
{
    assert(ps.push(p).drop_last() =~= ps);
}

proof fn lemma_open_piece_empty(s: Seq<char>, sep: spec_fn(char) -> bool)
    ensures
        (open_piece(s, sep).len() == 0) == (s.len() == 0 || sep(s.last())),
{
}

/// Splits `s` into its lines.
pub fn split_lines(s: &Vec<char>) -> (r: Vec<Vec<char>>)
    ensures
        views(r@) == lines_of(s@),
{
    let mut out: Vec<Vec<char>> = Vec::new();
    let mut cur: Vec<char> = Vec::new();
    let mut i: usize = 0;
    while i < s.len()
        invariant
            i <= s@.len(),
            views(out@) == closed_pieces(s@.take(i as int), line_feed()).map_values(
                |l: Seq<char>| strip_cr(l),
            ),
            cur@ == open_piece(s@.take(i as int), line_feed()),
        decreases s@.len() - i,
    {
        proof {
            lemma_take_push(s@, i as int);
        }
        let c = s[i];
        let ghost cur_v = cur@;
        let ghost pieces = closed_pieces(s@.take(i as int), line_feed());
        if c == '\n' {
            let mut line = cur;
            if line.len() > 0 && line[line.len() - 1] == '\r' {
                line.pop();
            }
            proof {
                assert(line@ =~= strip_cr(cur_v));
            }
            let ghost before = out@;
            out.push(line);
            assert(views(out@) =~= views(before).push(line@));
            assert(pieces.push(cur_v).map_values(|l: Seq<char>| strip_cr(l)) =~= pieces.map_values(
                |l: Seq<char>| strip_cr(l),
            ).push(strip_cr(cur_v)));
            cur = Vec::new();
        } else {
            cur.push(c);
        }
        i = i + 1;
    }
    proof {
        assert(s@.take(i as int) =~= s@);
        lemma_open_piece_empty(s@, line_feed());
    }
    if cur.len() > 0 {
        let ghost before = out@;
        out.push(cur);
        assert(views(out@) =~= views(before).push(open_piece(s@, line_feed())));
    }
    out
}

/// The number of words in `content`: the maximal runs of characters that are
/// neither white space nor a line feed.
pub fn count_words(content: &str) -> (r: usize)
    ensures
        r == word_count_of(content@),
{
    let s = chars_of(content);
    let mut count: usize = 0;
    let mut in_word = false;
    let mut i: usize = 0;
    while i < s.len()
        invariant
            i <= s@.len(),
            s@ == content@,
            count + (if in_word { 1int } else { 0int }) <= i,
            count == non_empty(closed_pieces(s@.take(i as int), word_break())).len(),
            in_word == (open_piece(s@.take(i as int), word_break()).len() > 0),
        decreases s@.len() - i,
    {
        proof {
            lemma_take_push(s@, i as int);
        }
        let c = s[i];
        let ghost closed = closed_pieces(s@.take(i as int), word_break());
        let ghost open = open_piece(s@.take(i as int), word_break());
        proof {
            lemma_non_empty_push(closed, open);
        }
        if is_white_space_char(c) || c == '\n' {
            if in_word {
                count = count + 1;
            }
            in_word = false;
        } else {
            in_word = true;
        }
        i = i + 1;
    }
    proof {
        assert(s@.take(i as int) =~= s@);
        lemma_non_empty_push(
            closed_pieces(s@, word_break()),
            open_piece(s@, word_break()),
        );
    }
    if in_word {
        count = count + 1;
    }
    count
}

} // verus!
