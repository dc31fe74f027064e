use vstd::prelude::*;
use crate::split::{closed_pieces, join, lemma_join_push, lemma_non_empty_push, non_empty, open_piece, split_by};
use crate::text::{chars_of, is_white_space, is_white_space_char, string_of};

verus! {

/// What `str::to_lowercase` makes of a string.
pub uninterp spec fn lower_of(s: Seq<char>) -> Seq<char>;

/// Whether `char::is_alphanumeric` holds of a character.
pub uninterp spec fn alphanumeric(c: char) -> bool;

/// Relies on `str::to_lowercase`: its result depends on the characters alone.
#[verifier::external_body]
fn lowercase(s: &str) -> (r: String)
    ensures
        r@ == lower_of(s@),
{
    s.to_lowercase()
}

/// Relies on `char::is_alphanumeric`: Unicode `Alphabetic` or `Numeric`.
#[verifier::external_body]
fn is_alphanumeric_char(c: char) -> (r: bool)
    ensures
        r == alphanumeric(c),
{
    c.is_alphanumeric()
}

/// A dash separates the parts of a slug.
pub open spec fn dash() -> spec_fn(char) -> bool {
    |c: char| c == '-'
}

/// How one character of lower-cased text appears in a slug: white space
/// becomes `-`; letters, digits, `-` and `_` stay; anything else becomes `_`.
/// (No white-space character is alphanumeric, so the order of the first two
/// tests does not matter.)
pub open spec fn slug_char(c: char) -> char {
    if is_white_space(c) {
        '-'
    } else if alphanumeric(c) || c == '-' || c == '_' {
        c
    } else {
        '_'
    }
}

/// The slug of already lower-cased text: each character mapped by
/// `slug_char`, then cut at every `-`, the empty parts dropped, and the rest
/// joined with single dashes.
pub open spec fn slug_of_lowered(m: Seq<char>) -> Seq<char> {
    join(non_empty(split_by(m.map_values(|c: char| slug_char(c)), dash())), '-')
}

/// The slug of a heading's text.
pub open spec fn slug_of(text: Seq<char>) -> Seq<char> {
    slug_of_lowered(lower_of(text))
}

fn slug_char_exec(c: char) -> (r: char)
    ensures
        r == slug_char(c),
{
    if is_white_space_char(c) {
        '-'
    } else if is_alphanumeric_char(c) || c == '-' || c == '_' {
        c
    } else {
        '_'
    }
}

/// Appends one part to a slug under construction: nothing for an empty part,
/// and a dash before it unless the slug is still empty.
fn append_part(out: &mut Vec<char>, part: &Vec<char>)
    ensures
        final(out)@ == if part@.len() == 0 {
            old(out)@
        } else if old(out)@.len() == 0 {
            part@
        } else {
            old(out)@.push('-') + part@
        },
{
    if part.len() > 0 {
        if out.len() > 0 {
            out.push('-');
        }
        out.extend_from_slice(part.as_slice());
    }
}

/// The slug of text that is already lower-cased.
pub fn slugify_lowered(lowered: &str) -> (r: String)
    ensures
        r@ == slug_of_lowered(lowered@),
{
    let s = chars_of(lowered);
    let ghost mapped = s@.map_values(|c: char| slug_char(c));
    let mut out: Vec<char> = Vec::new();
    let mut cur: Vec<char> = Vec::new();
    let mut i: usize = 0;
    while i < s.len()
        invariant
            i <= s@.len(),
            mapped == s@.map_values(|c: char| slug_char(c)),
            out@ == join(non_empty(closed_pieces(mapped.take(i as int), dash())), '-'),
            out@.len() == 0 <==> non_empty(closed_pieces(mapped.take(i as int), dash())).len()
                == 0,
            cur@ == open_piece(mapped.take(i as int), dash()),
        decreases s@.len() - i,
    {
        let c = slug_char_exec(s[i]);
        let ghost closed = closed_pieces(mapped.take(i as int), dash());
        proof {
            assert(mapped.take(i + 1).drop_last() =~= mapped.take(i as int));
            lemma_non_empty_push(closed, cur@);
            lemma_join_push(non_empty(closed), cur@, '-');
        }
        if c == '-' {
            append_part(&mut out, &cur);
            cur = Vec::new();
        } else {
            cur.push(c);
        }
        i = i + 1;
    }
    proof {
        assert(mapped.take(i as int) =~= mapped);
        lemma_non_empty_push(closed_pieces(mapped, dash()), cur@);
        lemma_join_push(non_empty(closed_pieces(mapped, dash())), cur@, '-');
    }
    append_part(&mut out, &cur);
    string_of(out.as_slice())
}

/// The slug of a heading's text: lower-cased, then as `slugify_lowered`.
pub fn slugify(text: &str) -> (r: String)
    ensures
        r@ == slug_of(text@),
{
    let lowered = lowercase(text);
    slugify_lowered(lowered.as_str())
}

} // verus!
