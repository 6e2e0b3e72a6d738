//! Lines of a text, as the rope that stores a buffer counts them.
//!
//! A line ends right after a line break. The breaks are LF, VT, FF, NEL,
//! LINE SEPARATOR and PARAGRAPH SEPARATOR on their own, CR when no LF follows
//! it, and the pair CR LF, which counts as one break ending after the LF.
//! Every text has at least one line; a text that ends with a break has an
//! empty last line.
use vstd::prelude::*;

verus! {

/// A character that ends a line on its own.
pub open spec fn is_single_break(c: char) -> bool {
    c == '\n' || c == '\u{b}' || c == '\u{c}' || c == '\u{85}' || c == '\u{2028}' || c == '\u{2029}'
}

/// Position `p` of `t` (a gap between characters) directly follows a line break.
pub open spec fn ends_line_at(t: Seq<char>, p: int) -> bool {
    &&& 1 <= p <= t.len()
    &&& (is_single_break(t[p - 1]) || (t[p - 1] == '\r' && (p == t.len() || t[p] != '\n')))
}

/// The start positions of the lines of `t` that begin at or before position `n`, in order.
pub open spec fn starts_upto(t: Seq<char>, n: int) -> Seq<int>
    decreases n,
{
    if n <= 0 {
        seq![0int]
    } else if ends_line_at(t, n) {
        starts_upto(t, n - 1).push(n)
    } else {
        starts_upto(t, n - 1)
    }
}

/// The start positions of all lines of `t`.
pub open spec fn line_starts(t: Seq<char>) -> Seq<int> {
    starts_upto(t, t.len() as int)
}

/// The number of lines of `t`: one more than the number of line breaks.
pub open spec fn num_lines(t: Seq<char>) -> nat {
    line_starts(t).len()
}

/// Where line `k` starts; one past the last line this is the end of the text.
pub open spec fn line_start(t: Seq<char>, k: int) -> int {
    if 0 <= k < num_lines(t) {
        line_starts(t)[k]
    } else {
        t.len() as int
    }
}

/// The number of characters of line `k`, its line break included.
pub open spec fn full_line_len(t: Seq<char>, k: int) -> int {
    line_start(t, k + 1) - line_start(t, k)
}

/// The length of line `k` as the editor shows it: without a final LF.
pub open spec fn line_len(t: Seq<char>, k: int) -> int {
    let n = full_line_len(t, k);
    if n > 0 && t[line_start(t, k) + n - 1] == '\n' {
        n - 1
    } else {
        n
    }
}

/// The line that holds character position `c` (the end of the text belongs to the last line).
pub open spec fn line_of(t: Seq<char>, c: int) -> int {
    starts_upto(t, c).len() - 1
}

/// The shape of `starts_upto`: it starts at 0, rises strictly and stays within `0..=n`.
pub proof fn lemma_starts_upto(t: Seq<char>, n: int)
    requires
        0 <= n <= t.len(),
    ensures
        starts_upto(t, n).len() >= 1,
        starts_upto(t, n).len() <= n + 1,
        starts_upto(t, n)[0] == 0,
        forall|i: int, j: int|
            0 <= i < j < starts_upto(t, n).len() ==> starts_upto(t, n)[i] < starts_upto(t, n)[j],
        forall|i: int| 0 <= i < starts_upto(t, n).len() ==> 0 <= #[trigger] starts_upto(t, n)[i] <= n,
    decreases n,
{
    if n > 0 {
        lemma_starts_upto(t, n - 1);
    }
}

/// The starts up to `m` are a prefix of the starts up to `n`, and the rest lie beyond `m`.
pub proof fn lemma_starts_prefix(t: Seq<char>, m: int, n: int)
    requires
        0 <= m <= n <= t.len(),
    ensures
        starts_upto(t, m).len() <= starts_upto(t, n).len(),
        forall|i: int| 0 <= i < starts_upto(t, m).len() ==> #[trigger] starts_upto(t, n)[i] == starts_upto(t, m)[i],
        forall|i: int| starts_upto(t, m).len() <= i < starts_upto(t, n).len() ==> #[trigger] starts_upto(t, n)[i] > m,
    decreases n - m,
{
    if m < n {
        lemma_starts_prefix(t, m, n - 1);
        lemma_starts_upto(t, n - 1);
    }
}

/// Facts about line starts: monotone, from 0 to the end of the text.
pub proof fn lemma_line_start(t: Seq<char>, k1: int, k2: int)
    requires
        0 <= k1 <= k2 <= num_lines(t),
    ensures
        num_lines(t) >= 1,
        line_start(t, 0) == 0,
        line_start(t, num_lines(t) as int) == t.len(),
        0 <= line_start(t, k1) <= line_start(t, k2) <= t.len(),
        k1 < k2 < num_lines(t) ==> line_start(t, k1) < line_start(t, k2),
{
    lemma_starts_upto(t, t.len() as int);
}

/// The line of a position starts at or before it, and the next line starts after it.
pub proof fn lemma_line_of(t: Seq<char>, c: int)
    requires
        0 <= c <= t.len(),
    ensures
        0 <= line_of(t, c) < num_lines(t),
        line_start(t, line_of(t, c)) <= c,
        c < t.len() ==> c < line_start(t, line_of(t, c) + 1),
{
    lemma_starts_upto(t, c);
    lemma_starts_prefix(t, c, t.len() as int);
    lemma_starts_upto(t, t.len() as int);
}

/// Putting a character at position `p` leaves the line starts before `p` as they were.
pub proof fn lemma_insert_keeps_starts_before(t: Seq<char>, p: int, c: char, m: int)
    requires
        0 <= p <= t.len(),
        0 <= m < p,
    ensures
        starts_upto(t.take(p) + seq![c] + t.skip(p), m) == starts_upto(t, m),
    decreases m,
{
    let u = t.take(p) + seq![c] + t.skip(p);
    if m > 0 {
        lemma_insert_keeps_starts_before(t, p, c, m - 1);
        assert(u[m - 1] == t[m - 1]);
        assert(u[m] == t[m]);
    }
}

/// Putting a character at position `p`: the line starts up to `p` stay a prefix of
/// those of the new text, unless an LF joins a CR that ended a line right at `p`.
pub proof fn lemma_insert_starts_prefix(t: Seq<char>, p: int, c: char)
    requires
        0 <= p <= t.len(),
        c == '\n' && p > 0 && t[p - 1] == '\r' ==> !ends_line_at(t, p),
    ensures
        ({
            let u = t.take(p) + seq![c] + t.skip(p);
            &&& starts_upto(t, p).len() <= starts_upto(u, p).len()
            &&& forall|i: int| 0 <= i < starts_upto(t, p).len() ==> #[trigger] starts_upto(u, p)[i] == starts_upto(t, p)[i]
        }),
{
    let u = t.take(p) + seq![c] + t.skip(p);
    if p > 0 {
        lemma_insert_keeps_starts_before(t, p, c, p - 1);
        assert(u[p - 1] == t[p - 1]);
        assert(u[p] == c);
        if ends_line_at(t, p) {
            assert(ends_line_at(u, p));
        }
    }
}

/// The start of line `k` of `t` is one of the starts up to `m` when it lies at or before `m`.
proof fn lemma_start_in_prefix(t: Seq<char>, k: int, m: int)
    requires
        0 <= m <= t.len(),
        0 <= k < num_lines(t),
        line_start(t, k) <= m,
    ensures
        k < starts_upto(t, m).len(),
        starts_upto(t, m)[k] == line_start(t, k),
{
    lemma_starts_prefix(t, m, t.len() as int);
    lemma_starts_upto(t, t.len() as int);
    if k >= starts_upto(t, m).len() {
        assert(starts_upto(t, t.len() as int)[k] > m);
    }
}

/// Putting a character at or after the start of line `k` leaves that start where it
/// was, unless the character is an LF put right at the start of the line, just after
/// the CR that ended the line before (the two then make one line break).
pub proof fn lemma_insert_keeps_line_start(t: Seq<char>, p: int, c: char, k: int)
    requires
        0 <= p <= t.len(),
        0 <= k < num_lines(t),
        line_start(t, k) <= p,
        !(c == '\n' && line_start(t, k) == p && p > 0 && t[p - 1] == '\r'),
    ensures
        k < num_lines(t.take(p) + seq![c] + t.skip(p)),
        line_start(t.take(p) + seq![c] + t.skip(p), k) == line_start(t, k),
{
    let u = t.take(p) + seq![c] + t.skip(p);
    lemma_starts_upto(u, u.len() as int);
    lemma_line_start(t, k, k);
    if line_start(t, k) < p {
        lemma_start_in_prefix(t, k, p - 1);
        lemma_insert_keeps_starts_before(t, p, c, p - 1);
        lemma_starts_prefix(u, p - 1, u.len() as int);
    } else {
        lemma_start_in_prefix(t, k, p);
        if c == '\n' && p > 0 && t[p - 1] == '\r' {
            assert(false);
        }
        lemma_insert_starts_prefix(t, p, c);
        lemma_starts_prefix(u, p, u.len() as int);
    }
}


/// Putting a line feed at `p`, unless it joins a CR that ends a line at `p`: the line
/// starts up to `p` stay as they were, and a line starts right after the new line feed.
pub proof fn lemma_insert_break_starts(t: Seq<char>, p: int)
    requires
        0 <= p <= t.len(),
        !(p > 0 && t[p - 1] == '\r' && ends_line_at(t, p)),
    ensures
        starts_upto(t.take(p) + seq!['\n'] + t.skip(p), p) == starts_upto(t, p),
        starts_upto(t.take(p) + seq!['\n'] + t.skip(p), p + 1) == starts_upto(t, p).push(p + 1),
{
    let u = t.take(p) + seq!['\n'] + t.skip(p);
    assert(u[p] == '\n');
    if p > 0 {
        lemma_insert_keeps_starts_before(t, p, '\n', p - 1);
        assert(u[p - 1] == t[p - 1]);
        assert(ends_line_at(u, p) == ends_line_at(t, p));
    }
    assert(ends_line_at(u, p + 1));
    assert(starts_upto(u, p + 1) == starts_upto(u, p + 1 - 1).push(p + 1));
    assert(starts_upto(u, p) == starts_upto(t, p));
}

/// Exactly `k + 1` lines start at or before `m` when `m` lies on line `k`.
pub proof fn lemma_starts_count(t: Seq<char>, k: int, m: int)
    requires
        0 <= m <= t.len(),
        0 <= k < num_lines(t),
        line_start(t, k) <= m,
        k + 1 < num_lines(t) ==> m < line_start(t, k + 1),
    ensures
        starts_upto(t, m).len() == k + 1,
        starts_upto(t, m)[k] == line_start(t, k),
{
    lemma_start_in_prefix(t, k, m);
    lemma_starts_prefix(t, m, t.len() as int);
    lemma_starts_upto(t, m);
    if starts_upto(t, m).len() > k + 1 {
        assert(starts_upto(t, m)[k + 1] <= m);
        assert(starts_upto(t, t.len() as int)[k + 1] == starts_upto(t, m)[k + 1]);
    }
}

/// After a line feed put at `p` (not joining a CR that ends a line at `p`), where `k + 1`
/// lines start at or before `p`, line `k + 1` of the new text starts right after it.
pub proof fn lemma_line_after_break(t: Seq<char>, p: int, k: int)
    requires
        0 <= p <= t.len(),
        !(p > 0 && t[p - 1] == '\r' && ends_line_at(t, p)),
        starts_upto(t, p).len() == k + 1,
    ensures
        k + 1 < num_lines(t.take(p) + seq!['\n'] + t.skip(p)),
        line_start(t.take(p) + seq!['\n'] + t.skip(p), k + 1) == p + 1,
        forall|j: int| 0 <= j <= k ==> #[trigger] line_start(t.take(p) + seq!['\n'] + t.skip(p), j) == starts_upto(t, p)[j],
{
    let u = t.take(p) + seq!['\n'] + t.skip(p);
    lemma_insert_break_starts(t, p);
    lemma_starts_prefix(u, p + 1, u.len() as int);
    assert(starts_upto(u, p + 1)[k + 1] == p + 1);
}


/// Two texts that agree on where lines end at each position up to `m` have the same line
/// starts up to `m`.
proof fn lemma_same_starts(t: Seq<char>, u: Seq<char>, m: int)
    requires
        0 <= m,
        forall|q: int| 1 <= q <= m ==> #[trigger] ends_line_at(u, q) == ends_line_at(t, q),
    ensures
        starts_upto(u, m) == starts_upto(t, m),
    decreases m,
{
    if m > 0 {
        lemma_same_starts(t, u, m - 1);
    }
}

/// With the characters from `a` to `e` taken out of `t`, the lines that start in the
/// new text after `a` and up to `q` are those that start in `t` after `e` and up to the
/// matching position `q + (e - a)`.
proof fn lemma_removed_starts(t: Seq<char>, a: int, e: int, q: int)
    requires
        0 <= a <= e <= t.len(),
        a <= q <= t.len() - (e - a),
    ensures
        starts_upto(t.take(a) + t.skip(e), q).len() == starts_upto(t.take(a) + t.skip(e), a).len()
            + starts_upto(t, q + (e - a)).len() - starts_upto(t, e).len(),
    decreases q - a,
{
    let u = t.take(a) + t.skip(e);
    let d = e - a;
    if q > a {
        lemma_removed_starts(t, a, e, q - 1);
        assert(u[q - 1] == t[q - 1 + d]);
        if q < u.len() {
            assert(u[q] == t[q + d]);
        }
        assert(ends_line_at(u, q) == ends_line_at(t, q + d));
        assert(starts_upto(t, q + d) == if ends_line_at(t, q + d) {
            starts_upto(t, q + d - 1).push(q + d)
        } else {
            starts_upto(t, q + d - 1)
        });
    }
}

/// Taking out line `k` with its line break, when another line follows it, leaves one
/// line fewer, unless the LF that then follows a CR ending line `k - 1` joins it.
pub proof fn lemma_delete_line_count(t: Seq<char>, k: int)
    requires
        0 <= k,
        k + 1 < num_lines(t),
        !(line_start(t, k) > 0 && t[line_start(t, k) - 1] == '\r' && line_start(t, k + 1) < t.len()
            && t[line_start(t, k + 1)] == '\n'),
    ensures
        num_lines(t.take(line_start(t, k)) + t.skip(line_start(t, k + 1))) == num_lines(t) - 1,
{
    let a = line_start(t, k);
    let e = line_start(t, k + 1);
    let u = t.take(a) + t.skip(e);
    lemma_line_start(t, k, k + 1);
    if k + 2 < num_lines(t) {
        lemma_line_start(t, k + 1, k + 2);
    }
    lemma_starts_count(t, k, a);
    lemma_starts_count(t, k + 1, e);
    if k > 0 {
        lemma_starts_upto(t, a - 1);
        lemma_starts_prefix(t, a - 1, t.len() as int);
        lemma_starts_upto(t, t.len() as int);
        if starts_upto(t, a - 1).len() > k {
            assert(starts_upto(t, t.len() as int)[k] == starts_upto(t, a - 1)[k]);
        }
        assert(starts_upto(t, a) == if ends_line_at(t, a) {
            starts_upto(t, a - 1).push(a)
        } else {
            starts_upto(t, a - 1)
        });
        assert(ends_line_at(t, a));
    }
    assert forall|q: int| 1 <= q <= a implies #[trigger] ends_line_at(u, q) == ends_line_at(t, q) by {
        assert(u[q - 1] == t[q - 1]);
        if q < a {
            assert(u[q] == t[q]);
        } else if e < t.len() {
            assert(u[q] == t[e]);
        }
    }
    lemma_same_starts(t, u, a);
    lemma_removed_starts(t, a, e, u.len() as int);
}

} // verus!
