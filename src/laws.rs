use vstd::prelude::*;
use crate::headings::{heading_of_line, headings_in_lines, headings_of};
use crate::pipeline::pipeline;
use crate::slug::{dash, lower_of, slug_char, slug_of, slug_of_lowered};
use crate::split::{closed_pieces, join, lemma_join_push, lines_of, non_empty, open_piece, split_by};
use crate::text::is_white_space;

verus! {

/// The analysis depends on the text alone: equal texts give equal results.
pub proof fn lemma_pipeline_deterministic(a: Seq<char>, b: Seq<char>)
    requires
        a == b,
    ensures
        pipeline(a) == pipeline(b),
{
}

proof fn lemma_headings_take_step(ls: Seq<Seq<char>>, i: int)
    requires
        0 <= i < ls.len(),
    ensures
        headings_in_lines(ls.take(i + 1)) == match heading_of_line(ls[i]) {
            Some(h) => headings_in_lines(ls.take(i)).push(h),
            None => headings_in_lines(ls.take(i)),
        },
{
    assert(ls.take(i + 1).drop_last() =~= ls.take(i));
}

proof fn lemma_headings_prefix(ls: Seq<Seq<char>>, k: int)
    requires
        0 <= k <= ls.len(),
    ensures
        headings_in_lines(ls.take(k)).len() <= headings_in_lines(ls).len(),
        forall|m: int|
            0 <= m < headings_in_lines(ls.take(k)).len() ==> headings_in_lines(ls.take(k))[m]
                == headings_in_lines(ls)[m],
    decreases ls.len(),
{
    if k == ls.len() {
        assert(ls.take(k) =~= ls);
    } else {
        let d = ls.drop_last();
        assert(d.take(k) =~= ls.take(k));
        lemma_headings_prefix(d, k);
    }
}

/// Headings keep the order of their lines: the heading of an earlier line
/// stands at a smaller index of the result than that of a later line. The
/// index of the heading of line `i` is the number of headings on the lines
/// before it.
pub proof fn lemma_heading_order(s: Seq<char>, i: int, j: int)
    requires
        0 <= i < j < lines_of(s).len(),
        heading_of_line(lines_of(s)[i]) is Some,
        heading_of_line(lines_of(s)[j]) is Some,
    ensures
        ({
            let ls = lines_of(s);
            let a = headings_in_lines(ls.take(i)).len() as int;
            let b = headings_in_lines(ls.take(j)).len() as int;
            &&& a < b < headings_of(s).len()
            &&& headings_of(s)[a] == heading_of_line(ls[i])->0
            &&& headings_of(s)[b] == heading_of_line(ls[j])->0
        }),
{
    let ls = lines_of(s);
    lemma_headings_take_step(ls, i);
    lemma_headings_take_step(ls, j);
    assert(ls.take(j).take(i + 1) =~= ls.take(i + 1));
    lemma_headings_prefix(ls.take(j), i + 1);
    lemma_headings_prefix(ls, i + 1);
    lemma_headings_prefix(ls, j + 1);
}

proof fn lemma_headings_fields(ls: Seq<Seq<char>>)
    ensures
        forall|k: int|
            0 <= k < headings_in_lines(ls).len() ==> {
                let h = #[trigger] headings_in_lines(ls)[k];
                &&& h.id == slug_of(h.text)
                &&& 1 <= h.level <= 6
            },
    decreases ls.len(),
{
    if ls.len() > 0 {
        let d = ls.drop_last();
        lemma_headings_fields(d);
        let hd = headings_in_lines(d);
        assert forall|k: int| 0 <= k < headings_in_lines(ls).len() implies {
            let h = #[trigger] headings_in_lines(ls)[k];
            &&& h.id == slug_of(h.text)
            &&& 1 <= h.level <= 6
        } by {
            if k < hd.len() {
                assert(headings_in_lines(ls)[k] == hd[k]);
            }
        }
    }
}

/// Every heading's anchor is the slug of its text.
pub proof fn lemma_heading_ids(s: Seq<char>)
    ensures
        forall|k: int|
            0 <= k < headings_of(s).len() ==> #[trigger] headings_of(s)[k].id == slug_of(
                headings_of(s)[k].text,
            ),
{
    lemma_headings_fields(lines_of(s));
}

/// Every heading's level lies between 1 and 6.
pub proof fn lemma_heading_levels(s: Seq<char>)
    ensures
        forall|k: int| 0 <= k < headings_of(s).len() ==> 1 <= #[trigger] headings_of(s)[k].level <= 6,
{
    lemma_headings_fields(lines_of(s));
}

/// A slug holds no white space and no two dashes in a row, and neither
/// starts nor ends with a dash.
pub open spec fn slug_shaped(t: Seq<char>) -> bool {
    &&& forall|i: int| 0 <= i < t.len() ==> !is_white_space(#[trigger] t[i])
    &&& forall|i: int| 0 <= i < t.len() - 1 ==> !(#[trigger] t[i] == '-' && t[i + 1] == '-')
    &&& t.len() > 0 ==> t[0] != '-' && t.last() != '-'
}

/// A part of a slug: no dash and no white space in it.
spec fn clean_part(p: Seq<char>) -> bool {
    forall|i: int| 0 <= i < p.len() ==> #[trigger] p[i] != '-' && !is_white_space(p[i])
}

spec fn no_white_space(s: Seq<char>) -> bool {
    forall|i: int| 0 <= i < s.len() ==> !is_white_space(#[trigger] s[i])
}

proof fn lemma_pieces_clean(s: Seq<char>)
    requires
        no_white_space(s),
    ensures
        clean_part(open_piece(s, dash())),
        forall|k: int|
            0 <= k < closed_pieces(s, dash()).len() ==> clean_part(
                #[trigger] closed_pieces(s, dash())[k],
            ),
    decreases s.len(),
{
    if s.len() > 0 {
        let d = s.drop_last();
        assert(no_white_space(d)) by {
            assert forall|i: int| 0 <= i < d.len() implies !is_white_space(#[trigger] d[i]) by {
                assert(d[i] == s[i]);
            }
        }
        lemma_pieces_clean(d);
        let cd = closed_pieces(d, dash());
        if s.last() == '-' {
            assert forall|k: int|
                0 <= k < closed_pieces(s, dash()).len() implies clean_part(
                #[trigger] closed_pieces(s, dash())[k],
            ) by {
                if k < cd.len() {
                    assert(closed_pieces(s, dash())[k] == cd[k]);
                }
            }
        } else {
            let p = open_piece(d, dash()).push(s.last());
            assert forall|i: int| 0 <= i < p.len() implies #[trigger] p[i] != '-'
                && !is_white_space(p[i]) by {
                if i < p.len() - 1 {
                    assert(p[i] == open_piece(d, dash())[i]);
                }
            }
        }
    }
}

proof fn lemma_non_empty_clean(ps: Seq<Seq<char>>)
    requires
        forall|k: int| 0 <= k < ps.len() ==> clean_part(#[trigger] ps[k]),
    ensures
        forall|k: int|
            0 <= k < non_empty(ps).len() ==> clean_part(#[trigger] non_empty(ps)[k])
                && non_empty(ps)[k].len() > 0,
    decreases ps.len(),
{
    if ps.len() > 0 {
        let d = ps.drop_last();
        assert forall|k: int| 0 <= k < d.len() implies clean_part(#[trigger] d[k]) by {
            assert(d[k] == ps[k]);
        }
        lemma_non_empty_clean(d);
        assert(clean_part(ps[ps.len() - 1]));
        let nd = non_empty(d);
        assert forall|k: int| 0 <= k < non_empty(ps).len() implies clean_part(
            #[trigger] non_empty(ps)[k],
        ) && non_empty(ps)[k].len() > 0 by {
            if k < nd.len() {
                assert(non_empty(ps)[k] == nd[k]);
            }
        }
    }
}

proof fn lemma_join_shaped(ps: Seq<Seq<char>>)
    requires
        forall|k: int| 0 <= k < ps.len() ==> clean_part(#[trigger] ps[k]) && ps[k].len() > 0,
    ensures
        slug_shaped(join(ps, '-')),
        ps.len() > 0 ==> join(ps, '-').len() > 0,
    decreases ps.len(),
{
    if ps.len() > 0 {
        let d = ps.drop_last();
        let p = ps.last();
        assert(clean_part(ps[ps.len() - 1]) && ps[ps.len() - 1].len() > 0);
        assert forall|k: int| 0 <= k < d.len() implies clean_part(#[trigger] d[k]) && d[k].len()
            > 0 by {
            assert(d[k] == ps[k]);
        }
        lemma_join_shaped(d);
        assert(ps =~= d.push(p));
        lemma_join_push(d, p, '-');
        if d.len() > 0 {
            let j = join(d, '-');
            let t = j.push('-') + p;
            assert forall|i: int| 0 <= i < t.len() implies !is_white_space(#[trigger] t[i]) by {
                if i < j.len() {
                    assert(t[i] == j[i]);
                } else if i > j.len() {
                    assert(t[i] == p[i - j.len() - 1]);
                }
            }
            assert forall|i: int| 0 <= i < t.len() - 1 implies !(#[trigger] t[i] == '-' && t[i
                + 1] == '-') by {
                if i < j.len() - 1 {
                    assert(t[i] == j[i] && t[i + 1] == j[i + 1]);
                } else if i == j.len() - 1 {
                    assert(t[i] == j.last());
                } else if i == j.len() {
                    assert(t[i + 1] == p[0]);
                } else {
                    assert(t[i] == p[i - j.len() - 1]);
                }
            }
            assert(t[0] == j[0]);
            assert(t.last() == p.last());
        }
    }
}

/// Every slug has the shape of an anchor: no white space, no `--`, and no
/// dash at either end; this holds whatever the lower-casing produced.
pub proof fn lemma_slug_shape_lowered(m: Seq<char>)
    ensures
        slug_shaped(slug_of_lowered(m)),
{
    let mapped = m.map_values(|c: char| slug_char(c));
    assert forall|i: int| 0 <= i < mapped.len() implies !is_white_space(#[trigger] mapped[i]) by {
        assert(mapped[i] == slug_char(m[i]));
    }
    lemma_pieces_clean(mapped);
    let ps = split_by(mapped, dash());
    assert forall|k: int| 0 <= k < ps.len() implies clean_part(#[trigger] ps[k]) by {
        if k < ps.len() - 1 {
            assert(ps[k] == closed_pieces(mapped, dash())[k]);
        }
    }
    lemma_non_empty_clean(ps);
    lemma_join_shaped(non_empty(ps));
}

/// The slug of any heading text has the shape of an anchor.
pub proof fn lemma_slug_shape(text: Seq<char>)
    ensures
        slug_shaped(slug_of(text)),
{
    lemma_slug_shape_lowered(lower_of(text));
}

} // verus!
