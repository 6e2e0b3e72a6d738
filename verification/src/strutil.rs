//! Small string operations of the editor, over the characters of a string:
//! whitespace, trimming, prefixes, decimal numbers and padding.
use vstd::prelude::*;

verus! {

/// The Unicode `White_Space` property, which `char::is_whitespace` tests.
pub open spec fn is_ws(c: char) -> bool {
    let u = c as u32;
    (9 <= u <= 13) || u == 32 || u == 0x85 || u == 0xa0 || u == 0x1680 || (0x2000 <= u <= 0x200a)
        || u == 0x2028 || u == 0x2029 || u == 0x202f || u == 0x205f || u == 0x3000
}

/// Whether `c` is whitespace in the sense of Unicode's `White_Space` property.
pub fn is_white_space(c: char) -> (r: bool)
    ensures
        r == is_ws(c),
{
    let u = c as u32;
    (9 <= u && u <= 13) || u == 32 || u == 0x85 || u == 0xa0 || u == 0x1680 || (0x2000 <= u && u
        <= 0x200a) || u == 0x2028 || u == 0x2029 || u == 0x202f || u == 0x205f || u == 0x3000
}

/// `String::push`: appends `c`.
#[verifier::external_body]
pub(crate) fn string_push(s: &mut String, c: char)
    ensures
        final(s)@ == old(s)@.push(c),
{
    s.push(c)
}

/// `String::pop`: takes off the last character, if there is one.
#[verifier::external_body]
pub(crate) fn string_pop(s: &mut String) -> (r: Option<char>)
    ensures
        old(s)@.len() == 0 ==> r is None && final(s)@ == old(s)@,
        old(s)@.len() > 0 ==> r == Some(old(s)@.last()) && final(s)@ == old(s)@.drop_last(),
{
    s.pop()
}

/// A new string that holds the characters of `s`.
pub fn str_to_string(s: &str) -> (r: String)
    ensures
        r@ == s@,
{
    String::from_str(s)
}

/// Whether two strings hold the same characters.
pub fn str_eq(a: &str, b: &str) -> (r: bool)
    ensures
        r == (a@ == b@),
{
    let n = a.unicode_len();
    if n != b.unicode_len() {
        return false;
    }
    let mut i: usize = 0;
    while i < n
        invariant
            n == a@.len(),
            n == b@.len(),
            i <= n,
            forall|j: int| 0 <= j < i ==> a@[j] == b@[j],
        decreases n - i,
    {
        if a.get_char(i) != b.get_char(i) {
            return false;
        }
        i = i + 1;
    }
    assert(a@ =~= b@);
    true
}

/// The position of the first character at or after `i` that is not whitespace (or the end).
pub open spec fn skip_ws_from(s: Seq<char>, i: int) -> int
    decreases s.len() - i,
{
    if 0 <= i < s.len() && is_ws(s[i]) {
        skip_ws_from(s, i + 1)
    } else {
        i
    }
}

/// The end of `s.take(e)` once whitespace at its end is dropped.
pub open spec fn drop_ws_before(s: Seq<char>, e: int) -> int
    decreases e,
{
    if 0 < e <= s.len() && is_ws(s[e - 1]) {
        drop_ws_before(s, e - 1)
    } else {
        e
    }
}

/// `s` without whitespace at either end, as `str::trim` gives it.
pub open spec fn trim_seq(s: Seq<char>) -> Seq<char> {
    let a = skip_ws_from(s, 0);
    if a >= s.len() {
        Seq::empty()
    } else {
        s.subrange(a, drop_ws_before(s, s.len() as int))
    }
}

proof fn lemma_skip_ws_from(s: Seq<char>, i: int)
    requires
        0 <= i <= s.len(),
    ensures
        i <= skip_ws_from(s, i) <= s.len(),
        skip_ws_from(s, i) < s.len() ==> !is_ws(s[skip_ws_from(s, i)]),
        forall|j: int| i <= j < skip_ws_from(s, i) ==> is_ws(#[trigger] s[j]),
    decreases s.len() - i,
{
    if i < s.len() && is_ws(s[i]) {
        lemma_skip_ws_from(s, i + 1);
    }
}

proof fn lemma_drop_ws_before(s: Seq<char>, e: int, a: int)
    requires
        0 <= a < e <= s.len(),
        !is_ws(s[a]),
    ensures
        a < drop_ws_before(s, e) <= e,
        !is_ws(s[drop_ws_before(s, e) - 1]),
    decreases e,
{
    if is_ws(s[e - 1]) {
        lemma_drop_ws_before(s, e - 1, a);
    }
}

/// `s` without whitespace at either end.
pub fn trim(s: &str) -> (r: &str)
    ensures
        r@ == trim_seq(s@),
{
    let n = s.unicode_len();
    let mut a: usize = 0;
    while a < n && is_white_space(s.get_char(a))
        invariant
            n == s@.len(),
            a <= n,
            skip_ws_from(s@, a as int) == skip_ws_from(s@, 0),
        decreases n - a,
    {
        a = a + 1;
    }
    proof { lemma_skip_ws_from(s@, 0); }
    if a == n {
        return s.substring_char(0, 0);
    }
    let mut e: usize = n;
    while e > a && is_white_space(s.get_char(e - 1))
        invariant
            n == s@.len(),
            a < e <= n,
            !is_ws(s@[a as int]),
            drop_ws_before(s@, e as int) == drop_ws_before(s@, n as int),
        decreases e,
    {
        e = e - 1;
    }
    proof { lemma_drop_ws_before(s@, n as int, a as int); }
    s.substring_char(a, e)
}

/// What `s.strip_prefix(p)` gives, over characters.
pub open spec fn strip_prefix_seq(s: Seq<char>, p: Seq<char>) -> Option<Seq<char>> {
    if p.len() <= s.len() && s.take(p.len() as int) == p {
        Some(s.skip(p.len() as int))
    } else {
        None
    }
}

/// `s` without the prefix `p`, if `s` starts with `p`.
pub fn strip_prefix<'a>(s: &'a str, p: &str) -> (r: Option<&'a str>)
    ensures
        r matches Some(x) ==> strip_prefix_seq(s@, p@) == Some(x@),
        r is None ==> strip_prefix_seq(s@, p@) is None,
{
    let n = s.unicode_len();
    let m = p.unicode_len();
    if m > n {
        return None;
    }
    let mut i: usize = 0;
    while i < m
        invariant
            n == s@.len(),
            m == p@.len(),
            m <= n,
            i <= m,
            forall|j: int| 0 <= j < i ==> s@[j] == p@[j],
        decreases m - i,
    {
        if s.get_char(i) != p.get_char(i) {
            assert(s@.take(m as int)[i as int] != p@[i as int]);
            return None;
        }
        i = i + 1;
    }
    assert(s@.take(m as int) =~= p@);
    let r = s.substring_char(m, n);
    assert(r@ =~= s@.skip(m as int));
    Some(r)
}

/// Whether `s` begins with `p`.
pub fn starts_with(s: &str, p: &str) -> (r: bool)
    ensures
        r == (p@.len() <= s@.len() && s@.take(p@.len() as int) == p@),
{
    match strip_prefix(s, p) {
        Some(_) => true,
        None => false,
    }
}

/// Whether `s` holds the character `c`.
pub fn contains_char(s: &str, c: char) -> (r: bool)
    ensures
        r == s@.contains(c),
{
    let n = s.unicode_len();
    let mut i: usize = 0;
    while i < n
        invariant
            n == s@.len(),
            i <= n,
            forall|j: int| 0 <= j < i ==> s@[j] != c,
        decreases n - i,
    {
        if s.get_char(i) == c {
            return true;
        }
        i = i + 1;
    }
    false
}

/// An ASCII decimal digit.
pub open spec fn is_digit(c: char) -> bool {
    48 <= (c as u32) <= 57
}

/// The number that a string of decimal digits spells.
pub open spec fn digits_value(s: Seq<char>) -> nat
    decreases s.len(),
{
    if s.len() == 0 {
        0
    } else {
        digits_value(s.drop_last()) * 10 + ((s.last() as u32) - 48) as nat
    }
}

/// `s` without one leading `+`.
pub open spec fn strip_plus(s: Seq<char>) -> Seq<char> {
    if s.len() > 0 && s[0] == '+' {
        s.skip(1)
    } else {
        s
    }
}

/// The number that `d` spells when it is one or more decimal digits and fits in a `usize`.
pub open spec fn parse_digits_seq(d: Seq<char>) -> Option<usize> {
    if d.len() > 0 && (forall|i: int| 0 <= i < d.len() ==> is_digit(#[trigger] d[i])) && digits_value(d)
        <= usize::MAX {
        Some(digits_value(d) as usize)
    } else {
        None
    }
}

/// What `s.parse::<usize>()` gives: an optional `+`, then one or more decimal digits,
/// whose value must fit in a `usize`.
pub open spec fn parse_usize_seq(s: Seq<char>) -> Option<usize> {
    parse_digits_seq(strip_plus(s))
}

proof fn lemma_digits_value_grows(s: Seq<char>, k: int)
    requires
        0 <= k <= s.len(),
        forall|i: int| 0 <= i < s.len() ==> is_digit(#[trigger] s[i]),
    ensures
        digits_value(s.take(k)) <= digits_value(s),
    decreases s.len() - k,
{
    if k < s.len() {
        lemma_digits_value_grows(s, k + 1);
        assert(s.take(k + 1).drop_last() =~= s.take(k));
    } else {
        assert(s.take(k) =~= s);
    }
}

proof fn lemma_parse_overflow(d: Seq<char>, k: int)
    requires
        0 <= k <= d.len(),
        forall|j: int| 0 <= j < k ==> is_digit(#[trigger] d[j]),
        digits_value(d.take(k)) > usize::MAX,
    ensures
        !((forall|i: int| 0 <= i < d.len() ==> is_digit(#[trigger] d[i])) && digits_value(d) <= usize::MAX),
{
    if forall|i: int| 0 <= i < d.len() ==> is_digit(#[trigger] d[i]) {
        lemma_digits_value_grows(d, k);
    }
}

/// Reads a decimal number as `str::parse::<usize>` does.
pub fn parse_usize(s: &str) -> (r: Option<usize>)
    ensures
        r == parse_usize_seq(s@),
{
    let n = s.unicode_len();
    let start: usize = if n > 0 && s.get_char(0) == '+' {
        1
    } else {
        0
    };
    let ghost d = strip_plus(s@);
    assert(d =~= s@.skip(start as int));
    if start == n {
        return None;
    }
    let mut v: usize = 0;
    let mut i: usize = start;
    while i < n
        invariant
            n == s@.len(),
            start <= i <= n,
            d == strip_plus(s@),
            d =~= s@.skip(start as int),
            forall|j: int| 0 <= j < i - start ==> is_digit(#[trigger] d[j]),
            v == digits_value(d.take(i - start)),
        decreases n - i,
    {
        let c = s.get_char(i);
        if !(48 <= (c as u32) && (c as u32) <= 57) {
            assert(!is_digit(d[i - start]));
            return None;
        }
        assert(d.take(i + 1 - start).drop_last() =~= d.take(i - start));
        assert(d.take(i + 1 - start).last() == c);
        assert(is_digit(d[i - start]));
        let dv = ((c as u32) - 48) as usize;
        match v.checked_mul(10) {
            Some(m) => match m.checked_add(dv) {
                Some(nv) => {
                    v = nv;
                },
                None => {
                    proof { lemma_parse_overflow(d, i + 1 - start); }
                    return None;
                },
            },
            None => {
                proof { lemma_parse_overflow(d, i + 1 - start); }
                return None;
            },
        }
        i = i + 1;
    }
    assert(d.take(n - start) =~= d);
    Some(v)
}

/// The decimal digit for `d < 10`.
pub open spec fn digit_char(d: nat) -> char {
    if d == 0 {
        '0'
    } else if d == 1 {
        '1'
    } else if d == 2 {
        '2'
    } else if d == 3 {
        '3'
    } else if d == 4 {
        '4'
    } else if d == 5 {
        '5'
    } else if d == 6 {
        '6'
    } else if d == 7 {
        '7'
    } else if d == 8 {
        '8'
    } else {
        '9'
    }
}

/// The decimal digits of `n`, as `{}` formats a number.
pub open spec fn dec_str(n: nat) -> Seq<char>
    decreases n,
{
    if n < 10 {
        seq![digit_char(n)]
    } else {
        dec_str(n / 10).push(digit_char(n % 10))
    }
}

fn digit(d: usize) -> (c: char)
    requires
        d < 10,
    ensures
        c == digit_char(d as nat),
{
    if d == 0 {
        '0'
    } else if d == 1 {
        '1'
    } else if d == 2 {
        '2'
    } else if d == 3 {
        '3'
    } else if d == 4 {
        '4'
    } else if d == 5 {
        '5'
    } else if d == 6 {
        '6'
    } else if d == 7 {
        '7'
    } else if d == 8 {
        '8'
    } else {
        '9'
    }
}

/// Appends the decimal digits of `n`.
pub fn push_usize(s: &mut String, n: usize)
    ensures
        final(s)@ == old(s)@ + dec_str(n as nat),
    decreases n,
{
    if n >= 10 {
        push_usize(s, n / 10);
    }
    string_push(s, digit(n % 10));
    proof {
        if n < 10 {
            assert(n % 10 == n);
        }
    }
}

/// The decimal digits of `n`.
pub fn usize_to_string(n: usize) -> (r: String)
    ensures
        r@ == dec_str(n as nat),
{
    let mut s = String::new();
    push_usize(&mut s, n);
    assert(s@ =~= dec_str(n as nat));
    s
}

/// `k` spaces.
pub open spec fn spaces(k: nat) -> Seq<char> {
    Seq::new(k, |i: int| ' ')
}

/// Appends `k` spaces.
pub fn push_spaces(s: &mut String, k: usize)
    ensures
        final(s)@ == old(s)@ + spaces(k as nat),
{
    let ghost s0 = s@;
    let mut i: usize = 0;
    while i < k
        invariant
            i <= k,
            s@ == s0 + spaces(i as nat),
        decreases k - i,
    {
        string_push(s, ' ');
        i = i + 1;
        assert(s@ =~= s0 + spaces(i as nat));
    }
}

/// `x` right-aligned in a field of `w` characters, as `{:>w}` formats it.
pub open spec fn pad_left(x: Seq<char>, w: nat) -> Seq<char> {
    if x.len() < w {
        spaces((w - x.len()) as nat) + x
    } else {
        x
    }
}

/// `x` left-aligned in a field of `w` characters, as `{:<w}` formats it.
pub open spec fn pad_right(x: Seq<char>, w: nat) -> Seq<char> {
    if x.len() < w {
        x + spaces((w - x.len()) as nat)
    } else {
        x
    }
}

/// Appends `x` right-aligned in a field of `w` characters.
pub fn push_pad_left(s: &mut String, x: &str, w: usize)
    ensures
        final(s)@ == old(s)@ + pad_left(x@, w as nat),
{
    let n = x.unicode_len();
    if n < w {
        push_spaces(s, w - n);
    }
    s.append(x);
    assert(s@ =~= old(s)@ + pad_left(x@, w as nat));
}

/// Appends `x` left-aligned in a field of `w` characters.
pub fn push_pad_right(s: &mut String, x: &str, w: usize)
    ensures
        final(s)@ == old(s)@ + pad_right(x@, w as nat),
{
    let n = x.unicode_len();
    s.append(x);
    if n < w {
        push_spaces(s, w - n);
    }
    assert(s@ =~= old(s)@ + pad_right(x@, w as nat));
}

} // verus!
