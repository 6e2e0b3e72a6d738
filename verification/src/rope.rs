//! The text of a buffer lives in a `ropey::Rope`. Verus sees a rope only through
//! `rope_text`, the characters it holds; the functions below make the calls
//! into ropey that the editor needs and say what each does to that text.
use vstd::prelude::*;
use ropey::Rope;
use crate::text::{num_lines, line_start, line_of, full_line_len, line_len, lemma_line_start};

verus! {

#[verifier::external_type_specification]
#[verifier::external_body]
pub struct ExRope(Rope);

/// The characters that a rope holds, in order.
pub uninterp spec fn rope_text(r: Rope) -> Seq<char>;

/// `Rope::from_str`: a rope that holds exactly the characters of `s`.
#[verifier::external_body]
pub(crate) fn rope_from_str(s: &str) -> (r: Rope)
    ensures
        rope_text(r) == s@,
{
    Rope::from_str(s)
}

/// `Rope::len_chars`: the number of characters of the rope.
#[verifier::external_body]
pub(crate) fn rope_len_chars(r: &Rope) -> (n: usize)
    ensures
        n == rope_text(*r).len(),
{
    r.len_chars()
}

/// `Rope::len_lines`: one more than the number of line breaks (see `crate::text`).
#[verifier::external_body]
pub(crate) fn rope_len_lines(r: &Rope) -> (n: usize)
    ensures
        n == num_lines(rope_text(*r)),
{
    r.len_lines()
}

/// `Rope::line_to_char`: where line `k` starts; one past the last line gives the end of
/// the text. Ropey panics for a larger `k`.
#[verifier::external_body]
pub(crate) fn rope_line_to_char(r: &Rope, k: usize) -> (c: usize)
    requires
        k <= num_lines(rope_text(*r)),
    ensures
        c == line_start(rope_text(*r), k as int),
{
    r.line_to_char(k)
}

/// `Rope::char_to_line`: the line that holds character position `c`; the end of the
/// text gives the last line. Ropey panics past the end.
#[verifier::external_body]
pub(crate) fn rope_char_to_line(r: &Rope, c: usize) -> (k: usize)
    requires
        c <= rope_text(*r).len(),
    ensures
        k == line_of(rope_text(*r), c as int),
{
    r.char_to_line(c)
}

/// `Rope::char`: the character at position `i`. Ropey panics past the end.
#[verifier::external_body]
pub(crate) fn rope_char(r: &Rope, i: usize) -> (ch: char)
    requires
        i < rope_text(*r).len(),
    ensures
        ch == rope_text(*r)[i as int],
{
    r.char(i)
}

/// `Rope::insert`: puts the characters of `s` at position `idx`. Ropey panics past the end.
#[verifier::external_body]
pub(crate) fn rope_insert(r: &mut Rope, idx: usize, s: &str)
    requires
        idx <= rope_text(*old(r)).len(),
    ensures
        rope_text(*final(r)) == rope_text(*old(r)).take(idx as int) + s@ + rope_text(*old(r)).skip(idx as int),
{
    r.insert(idx, s)
}

/// `Rope::insert_char`: puts `ch` at position `idx`. Ropey panics past the end.
#[verifier::external_body]
pub(crate) fn rope_insert_char(r: &mut Rope, idx: usize, ch: char)
    requires
        idx <= rope_text(*old(r)).len(),
    ensures
        rope_text(*final(r)) == rope_text(*old(r)).take(idx as int).push(ch) + rope_text(*old(r)).skip(idx as int),
{
    r.insert_char(idx, ch)
}

/// `Rope::remove`: takes out the characters at positions `start..end`. Ropey panics
/// when `start > end` or `end` is past the end.
#[verifier::external_body]
pub(crate) fn rope_remove(r: &mut Rope, start: usize, end: usize)
    requires
        start <= end <= rope_text(*old(r)).len(),
    ensures
        rope_text(*final(r)) == rope_text(*old(r)).take(start as int) + rope_text(*old(r)).skip(end as int),
{
    r.remove(start..end)
}

/// `Rope`'s `to_string`: a string of the characters of the rope.
#[verifier::external_body]
pub(crate) fn rope_to_string(r: &Rope) -> (s: String)
    ensures
        s@ == rope_text(*r),
{
    r.to_string()
}

/// `Rope::line`, as a `String`: the characters of line `k`, its line break included.
/// Ropey panics for a `k` past the last line.
#[verifier::external_body]
pub(crate) fn rope_line_string(r: &Rope, k: usize) -> (s: String)
    requires
        k < num_lines(rope_text(*r)),
    ensures
        s@ == rope_text(*r).subrange(line_start(rope_text(*r), k as int), line_start(rope_text(*r), k + 1)),
{
    r.line(k).to_string()
}

/// Where line `k` ends: the start of the next line, or the end of the text.
pub fn line_end_pos(r: &Rope, k: usize) -> (e: usize)
    requires
        k < num_lines(rope_text(*r)),
    ensures
        e == line_start(rope_text(*r), k + 1),
{
    let lines = rope_len_lines(r);
    if k < lines - 1 {
        rope_line_to_char(r, k + 1)
    } else {
        rope_len_chars(r)
    }
}

/// The number of characters of line `k`, its line break included.
pub fn line_full_len(r: &Rope, k: usize) -> (n: usize)
    requires
        k < num_lines(rope_text(*r)),
    ensures
        n == full_line_len(rope_text(*r), k as int),
{
    proof { lemma_line_start(rope_text(*r), k as int, k + 1); }
    let s = rope_line_to_char(r, k);
    let e = line_end_pos(r, k);
    e - s
}

/// The length of line `k` without a final LF.
pub fn line_visible_len(r: &Rope, k: usize) -> (n: usize)
    requires
        k < num_lines(rope_text(*r)),
    ensures
        n == line_len(rope_text(*r), k as int),
{
    proof { lemma_line_start(rope_text(*r), k as int, k + 1); }
    let s = rope_line_to_char(r, k);
    let e = line_end_pos(r, k);
    if e > s && rope_char(r, e - 1) == '\n' {
        e - s - 1
    } else {
        e - s
    }
}

} // verus!
