//! The edits and motions that run on the active buffer and tab. Each says where the
//! buffer and the tab end up, and whether the operation runs to its end; where it
//! does not, the buffer is marked as crashed (see `App::with_buffer`).
use vstd::prelude::*;
use crate::mode::Mode;
use crate::model::{BufferView, TabView, AppView, sat_sub};
use crate::text::{num_lines, line_start, line_len, line_of, full_line_len, lemma_line_start, lemma_line_of};
use crate::strutil::{is_ws, is_white_space};
use crate::rope::{rope_len_lines, rope_len_chars, rope_line_to_char, rope_char, rope_char_to_line,
    rope_insert, rope_insert_char, rope_remove, line_visible_len, line_end_pos, line_full_len};
use crate::editor::{Buffer, Tab, App};
use crate::strutil::str_to_string;

verus! {

broadcast use vstd::std_specs::hash::group_hash_axioms;

/// An operation on the active buffer and tab.
#[derive(Clone, Copy, PartialEq, Eq, Debug, Structural)]
pub enum BufferOp {
    /// `o`: a new line below the cursor's line.
    OpenBelow,
    /// `O`: a new line above the cursor's line.
    OpenAbove,
    /// `x`: delete the character under the cursor.
    DeleteChar,
    /// `d`: delete the cursor's line.
    DeleteLine,
    /// `w`: to the start of the next word.
    WordForward,
    /// `b`: to the start of the previous word.
    WordBackward,
    /// Typing a character in insert mode.
    InsertChar(char),
    /// Enter in insert mode.
    NewLine,
    /// Backspace in insert mode.
    Backspace,
    /// `d` or `x` in visual mode: delete the selection.
    DeleteSelection,
}

/// `s` with `ins` put at position `i`.
pub open spec fn insert_at(s: Seq<char>, i: int, ins: Seq<char>) -> Seq<char> {
    s.take(i) + ins + s.skip(i)
}

/// `s` without positions `a..b`.
pub open spec fn remove_range(s: Seq<char>, a: int, b: int) -> Seq<char> {
    s.take(a) + s.skip(b)
}

/// The characters of line `k`, its line break included.
pub open spec fn line_chars(t: Seq<char>, k: int) -> Seq<char> {
    t.subrange(line_start(t, k), line_start(t, k + 1))
}

/// From `i`, past the characters that are not whitespace.
pub open spec fn skip_word(s: Seq<char>, i: int) -> int
    decreases s.len() - i,
{
    if 0 <= i < s.len() && !is_ws(s[i]) {
        skip_word(s, i + 1)
    } else {
        i
    }
}

/// From `i`, past whitespace.
pub open spec fn skip_space(s: Seq<char>, i: int) -> int
    decreases s.len() - i,
{
    if 0 <= i < s.len() && is_ws(s[i]) {
        skip_space(s, i + 1)
    } else {
        i
    }
}

/// From `i`, back over whitespace (looking at `s[i]`).
pub open spec fn back_space(s: Seq<char>, i: int) -> int
    decreases i,
{
    if 0 < i < s.len() && is_ws(s[i]) {
        back_space(s, i - 1)
    } else {
        i
    }
}

/// From `i`, back to the start of the word that ends there (looking at `s[i - 1]`).
pub open spec fn back_word(s: Seq<char>, i: int) -> int
    decreases i,
{
    if 0 < i <= s.len() && !is_ws(s[i - 1]) {
        back_word(s, i - 1)
    } else {
        i
    }
}

/// The buffer with text `text`, marked as changed.
pub open spec fn edited(b: BufferView, text: Seq<char>) -> BufferView {
    BufferView { text, dirty: true, ..b }
}

/// What an operation leaves of the buffer and the tab, and whether it runs to its end.
/// Where it stops early, the buffer and tab are as they were at that point.
pub open spec fn op_spec(op: BufferOp, b: BufferView, t: TabView) -> (BufferView, TabView, bool) {
    let text = b.text;
    let nl = num_lines(text);
    let len = text.len();
    let cx = t.cx as int;
    let cy = t.cy as int;
    match op {
        BufferOp::OpenBelow => if cy < nl {
            (
                edited(b, insert_at(text, line_start(text, cy + 1), seq!['\n'])),
                TabView { cy: (cy + 1) as usize, cx: 0, mode: Mode::Insert, ..t },
                true,
            )
        } else {
            (b, t, false)
        },
        BufferOp::OpenAbove => if cy <= nl {
            (
                edited(b, insert_at(text, line_start(text, cy), seq!['\n'])),
                TabView { cx: 0, mode: Mode::Insert, ..t },
                true,
            )
        } else {
            (b, t, false)
        },
        BufferOp::DeleteChar => {
            let idx = line_start(text, cy) + cx;
            if cy >= nl {
                (b, t, false)
            } else if line_len(text, cy) == 0 {
                (b, t, true)
            } else if idx < len {
                (edited(b, remove_range(text, idx, idx + 1)), t, true)
            } else {
                (b, t, false)
            }
        },
        BufferOp::DeleteLine => if nl > 1 {
            if cy <= nl {
                (edited(b, remove_range(text, line_start(text, cy), line_start(text, cy + 1))), t, true)
            } else {
                (b, t, false)
            }
        } else {
            (edited(b, Seq::empty()), t, true)
        },
        BufferOp::WordForward => if cy < nl {
            let s = line_chars(text, cy);
            let i = skip_space(s, skip_word(s, cx));
            let last = sat_sub(line_len(text, cy) as usize, 1);
            (b, TabView { cx: if i < last { i as usize } else { last }, ..t }, true)
        } else {
            (b, t, false)
        },
        BufferOp::WordBackward => {
            let s = line_chars(text, cy);
            let i = sat_sub(t.cx, 1) as int;
            if cy >= nl || (i > 0 && i >= s.len()) {
                (b, t, false)
            } else {
                (b, TabView { cx: back_word(s, back_space(s, i)) as usize, ..t }, true)
            }
        },
        BufferOp::InsertChar(c) => {
            let idx = line_start(text, cy) + cx;
            if cy <= nl && idx <= len {
                (edited(b, insert_at(text, idx, seq![c])), TabView { cx: (cx + 1) as usize, ..t }, true)
            } else {
                (b, t, false)
            }
        },
        BufferOp::NewLine => {
            let idx = line_start(text, cy) + cx;
            if cy <= nl && idx <= len {
                if cy < usize::MAX {
                    (
                        edited(b, insert_at(text, idx, seq!['\n'])),
                        TabView { cy: (cy + 1) as usize, cx: 0, ..t },
                        true,
                    )
                } else {
                    (edited(b, insert_at(text, idx, seq!['\n'])), t, false)
                }
            } else {
                (b, t, false)
            }
        },
        BufferOp::Backspace => {
            let idx = line_start(text, cy) + cx;
            if cy > nl || idx > len {
                (b, t, false)
            } else if idx == 0 {
                (b, t, true)
            } else {
                let text2 = remove_range(text, idx - 1, idx);
                if cx > 0 {
                    (edited(b, text2), TabView { cx: (cx - 1) as usize, ..t }, true)
                } else if cy > 0 {
                    let cy2 = cy - 1;
                    if cy2 >= num_lines(text2) {
                        (edited(b, text2), TabView { cy: cy2 as usize, ..t }, false)
                    } else {
                        (edited(b, text2), TabView { cy: cy2 as usize, cx: line_len(text2, cy2) as usize, ..t }, true)
                    }
                } else {
                    (edited(b, text2), t, true)
                }
            }
        },
        BufferOp::DeleteSelection => {
            let ar = t.visual_anchor.0 as int;
            let a = line_start(text, ar) + t.visual_anchor.1;
            let c = line_start(text, cy) + cx;
            let start = if a <= c { a } else { c };
            let far = if a <= c { c } else { a };
            let end = if far + 1 < len { far + 1 } else { len as int };
            if ar > nl || cy > nl || a > usize::MAX || c > usize::MAX || far + 1 > usize::MAX || start > end {
                (b, t, false)
            } else {
                let text2 = remove_range(text, start, end);
                let ci = if start < text2.len() - 1 { start } else { sat_sub(text2.len() as usize, 1) as int };
                let cy2 = line_of(text2, ci);
                (
                    edited(b, text2),
                    TabView { cy: cy2 as usize, cx: (ci - line_start(text2, cy2)) as usize, mode: Mode::Normal, ..t },
                    true,
                )
            }
        },
    }
}

/// `b1`, `t1` and `ok` are what operation `op` makes of `b0` and `t0`.
pub open spec fn op_done(op: BufferOp, b0: BufferView, t0: TabView, b1: BufferView, t1: TabView, ok: bool) -> bool {
    let r = op_spec(op, b0, t0);
    &&& b1 == r.0
    &&& t1 == r.1
    &&& ok == r.2
}

/// `o`: a new line below the cursor's line, and insert mode on it.
fn open_below(b: &mut Buffer, t: &mut Tab) -> (ok: bool)
    ensures
        op_done(BufferOp::OpenBelow, old(b)@, old(t)@, final(b)@, final(t)@, ok),
{
    let nl = rope_len_lines(&b.rope);
    if t.cy >= nl {
        return false;
    }
    let idx = line_end_pos(&b.rope, t.cy);
    proof { lemma_line_start(old(b)@.text, t.cy as int, t.cy + 1); }
    rope_insert(&mut b.rope, idx, "\n");
    proof { reveal_strlit("\n"); }
    b.dirty = true;
    t.cy = t.cy + 1;
    t.cx = 0;
    t.mode = Mode::Insert;
    assert(b@.text =~= insert_at(old(b)@.text, idx as int, seq!['\n']));
    true
}

/// `O`: a new line above the cursor's line, and insert mode on it.
fn open_above(b: &mut Buffer, t: &mut Tab) -> (ok: bool)
    ensures
        op_done(BufferOp::OpenAbove, old(b)@, old(t)@, final(b)@, final(t)@, ok),
{
    let nl = rope_len_lines(&b.rope);
    if t.cy > nl {
        return false;
    }
    let idx = rope_line_to_char(&b.rope, t.cy);
    proof { lemma_line_start(old(b)@.text, t.cy as int, nl as int); }
    rope_insert(&mut b.rope, idx, "\n");
    proof { reveal_strlit("\n"); }
    b.dirty = true;
    t.cx = 0;
    t.mode = Mode::Insert;
    assert(b@.text =~= insert_at(old(b)@.text, idx as int, seq!['\n']));
    true
}

/// `x`: deletes the character under the cursor, unless the line is empty.
fn delete_char(b: &mut Buffer, t: &mut Tab) -> (ok: bool)
    ensures
        op_done(BufferOp::DeleteChar, old(b)@, old(t)@, final(b)@, final(t)@, ok),
{
    let nl = rope_len_lines(&b.rope);
    if t.cy >= nl {
        return false;
    }
    let line_len = line_visible_len(&b.rope, t.cy);
    if line_len > 0 {
        let start = rope_line_to_char(&b.rope, t.cy);
        let len = rope_len_chars(&b.rope);
        let idx = match start.checked_add(t.cx) {
            Some(i) => i,
            None => return false,
        };
        if idx >= len {
            return false;
        }
        rope_remove(&mut b.rope, idx, idx + 1);
        b.dirty = true;
        assert(b@.text =~= remove_range(old(b)@.text, idx as int, idx + 1));
    }
    true
}

/// `d`: deletes the cursor's line (with one line, empties the buffer).
fn delete_line(b: &mut Buffer, t: &mut Tab) -> (ok: bool)
    ensures
        op_done(BufferOp::DeleteLine, old(b)@, old(t)@, final(b)@, final(t)@, ok),
{
    let nl = rope_len_lines(&b.rope);
    proof { lemma_line_start(old(b)@.text, 0, 0); }
    if nl > 1 {
        if t.cy > nl {
            return false;
        }
        let start = rope_line_to_char(&b.rope, t.cy);
        let end = if t.cy < nl - 1 {
            rope_line_to_char(&b.rope, t.cy + 1)
        } else {
            rope_len_chars(&b.rope)
        };
        proof {
            lemma_line_start(old(b)@.text, t.cy as int, nl as int);
            if t.cy + 1 < nl {
                lemma_line_start(old(b)@.text, t.cy as int, t.cy + 1);
            }
        }
        rope_remove(&mut b.rope, start, end);
        assert(b@.text =~= remove_range(old(b)@.text, start as int, end as int));
    } else {
        let len = rope_len_chars(&b.rope);
        if len > 0 {
            rope_remove(&mut b.rope, 0, len);
        }
        assert(b@.text =~= Seq::<char>::empty());
    }
    b.dirty = true;
    true
}

/// `w`: to the start of the next word on the line (at most its last character).
fn word_forward(b: &mut Buffer, t: &mut Tab) -> (ok: bool)
    ensures
        op_done(BufferOp::WordForward, old(b)@, old(t)@, final(b)@, final(t)@, ok),
{
    let nl = rope_len_lines(&b.rope);
    if t.cy >= nl {
        return false;
    }
    let ghost text = b@.text;
    let ghost s = line_chars(text, t.cy as int);
    proof { lemma_line_start(text, t.cy as int, t.cy + 1); }
    let ls = rope_line_to_char(&b.rope, t.cy);
    let n = line_full_len(&b.rope, t.cy);
    let len = rope_len_chars(&b.rope);
    assert(s.len() == n);
    let mut i = t.cx;
    while i < n && !is_white_space(rope_char(&b.rope, ls + i))
        invariant
            b@.text == text,
            s == line_chars(text, t.cy as int),
            s.len() == n,
            ls + n <= text.len(),
            text.len() == len,
            ls == line_start(text, t.cy as int),
            ls + n == line_start(text, t.cy + 1),
            skip_word(s, i as int) == skip_word(s, t.cx as int),
        decreases n - i,
    {
        assert(s[i as int] == text[ls + i]);
        i = i + 1;
    }
    proof {
        if i < n {
            assert(s[i as int] == text[ls + i]);
        }
    }
    let j0 = i;
    while i < n && is_white_space(rope_char(&b.rope, ls + i))
        invariant
            b@.text == text,
            s == line_chars(text, t.cy as int),
            s.len() == n,
            ls + n <= text.len(),
            text.len() == len,
            ls == line_start(text, t.cy as int),
            ls + n == line_start(text, t.cy + 1),
            j0 <= i,
            skip_space(s, i as int) == skip_space(s, j0 as int),
        decreases n - i,
    {
        assert(s[i as int] == text[ls + i]);
        i = i + 1;
    }
    proof {
        if i < n {
            assert(s[i as int] == text[ls + i]);
        }
    }
    let line_len = line_visible_len(&b.rope, t.cy);
    t.cx = if i < line_len.saturating_sub(1) {
        i
    } else {
        line_len.saturating_sub(1)
    };
    true
}

/// `b`: to the start of the word before the cursor.
fn word_backward(b: &mut Buffer, t: &mut Tab) -> (ok: bool)
    ensures
        op_done(BufferOp::WordBackward, old(b)@, old(t)@, final(b)@, final(t)@, ok),
{
    let nl = rope_len_lines(&b.rope);
    if t.cy >= nl {
        return false;
    }
    let ghost text = b@.text;
    let ghost s = line_chars(text, t.cy as int);
    proof { lemma_line_start(text, t.cy as int, t.cy + 1); }
    let ls = rope_line_to_char(&b.rope, t.cy);
    let n = line_full_len(&b.rope, t.cy);
    let len = rope_len_chars(&b.rope);
    assert(s.len() == n);
    let mut i = t.cx.saturating_sub(1);
    if i > 0 && i >= n {
        return false;
    }
    let i0 = i;
    while i > 0 && is_white_space(rope_char(&b.rope, ls + i))
        invariant
            b@.text == text,
            s == line_chars(text, t.cy as int),
            s.len() == n,
            ls + n <= text.len(),
            text.len() == len,
            ls == line_start(text, t.cy as int),
            ls + n == line_start(text, t.cy + 1),
            i == 0 || i < n,
            back_space(s, i as int) == back_space(s, i0 as int),
        decreases i,
    {
        assert(s[i as int] == text[ls + i]);
        i = i - 1;
    }
    proof {
        if i > 0 {
            assert(s[i as int] == text[ls + i]);
        }
    }
    let i1 = i;
    while i > 0 && !is_white_space(rope_char(&b.rope, ls + i - 1))
        invariant
            b@.text == text,
            s == line_chars(text, t.cy as int),
            s.len() == n,
            ls + n <= text.len(),
            text.len() == len,
            ls == line_start(text, t.cy as int),
            ls + n == line_start(text, t.cy + 1),
            i == 0 || i < n,
            back_word(s, i as int) == back_word(s, i1 as int),
        decreases i,
    {
        assert(s[i - 1] == text[ls + i - 1]);
        i = i - 1;
    }
    proof {
        if i > 0 {
            assert(s[i - 1] == text[ls + i - 1]);
        }
    }
    t.cx = i;
    true
}

/// The character position of the cursor: the start of its line plus its column.
/// `None` where the line is past the one after the last, or the sum overflows.
fn cursor_pos(b: &Buffer, line: usize, col: usize) -> (r: Option<usize>)
    ensures
        r matches Some(p) ==> line <= num_lines(b@.text) && p == line_start(b@.text, line as int) + col,
        r is None ==> line > num_lines(b@.text) || line_start(b@.text, line as int) + col > usize::MAX,
{
    let nl = rope_len_lines(&b.rope);
    if line > nl {
        return None;
    }
    let ls = rope_line_to_char(&b.rope, line);
    ls.checked_add(col)
}

/// Typing `c` in insert mode: it goes in at the cursor, which moves right.
fn insert_char(b: &mut Buffer, t: &mut Tab, c: char) -> (ok: bool)
    ensures
        op_done(BufferOp::InsertChar(c), old(b)@, old(t)@, final(b)@, final(t)@, ok),
{
    let len = rope_len_chars(&b.rope);
    let idx = match cursor_pos(b, t.cy, t.cx) {
        Some(p) => p,
        None => return false,
    };
    if idx > len {
        return false;
    }
    rope_insert_char(&mut b.rope, idx, c);
    let len2 = rope_len_chars(&b.rope);
    assert(len2 == len + 1);
    proof { lemma_line_start(old(b)@.text, t.cy as int, num_lines(old(b)@.text) as int); }
    b.dirty = true;
    t.cx = t.cx + 1;
    assert(b@.text =~= insert_at(old(b)@.text, idx as int, seq![c]));
    true
}

/// Enter in insert mode: a line break at the cursor, which goes to the start of the next line.
fn new_line(b: &mut Buffer, t: &mut Tab) -> (ok: bool)
    ensures
        op_done(BufferOp::NewLine, old(b)@, old(t)@, final(b)@, final(t)@, ok),
{
    let len = rope_len_chars(&b.rope);
    let nl = rope_len_lines(&b.rope);
    let idx = match cursor_pos(b, t.cy, t.cx) {
        Some(p) => p,
        None => return false,
    };
    if idx > len {
        return false;
    }
    rope_insert_char(&mut b.rope, idx, '\n');
    b.dirty = true;
    assert(b@.text =~= insert_at(old(b)@.text, idx as int, seq!['\n']));
    if t.cy == usize::MAX {
        return false;
    }
    t.cy = t.cy + 1;
    t.cx = 0;
    true
}

/// Backspace in insert mode: deletes the character before the cursor; at the start of
/// a line the cursor goes to the end of the line before.
fn backspace(b: &mut Buffer, t: &mut Tab) -> (ok: bool)
    ensures
        op_done(BufferOp::Backspace, old(b)@, old(t)@, final(b)@, final(t)@, ok),
{
    let len = rope_len_chars(&b.rope);
    let idx = match cursor_pos(b, t.cy, t.cx) {
        Some(p) => p,
        None => return false,
    };
    if idx > len {
        return false;
    }
    if idx > 0 {
        rope_remove(&mut b.rope, idx - 1, idx);
        b.dirty = true;
        assert(b@.text =~= remove_range(old(b)@.text, idx - 1, idx as int));
        if t.cx > 0 {
            t.cx = t.cx - 1;
        } else if t.cy > 0 {
            t.cy = t.cy - 1;
            let nl = rope_len_lines(&b.rope);
            if t.cy >= nl {
                return false;
            }
            t.cx = line_visible_len(&b.rope, t.cy);
        }
    }
    true
}

/// `d` or `x` in visual mode: deletes from the anchor to the cursor, both included, and
/// puts the cursor where the selection began, back in normal mode.
fn delete_selection(b: &mut Buffer, t: &mut Tab) -> (ok: bool)
    ensures
        op_done(BufferOp::DeleteSelection, old(b)@, old(t)@, final(b)@, final(t)@, ok),
{
    let len = rope_len_chars(&b.rope);
    let anchor = match cursor_pos(b, t.visual_anchor.0, t.visual_anchor.1) {
        Some(p) => p,
        None => return false,
    };
    let cursor = match cursor_pos(b, t.cy, t.cx) {
        Some(p) => p,
        None => return false,
    };
    let (start, far) = if anchor <= cursor {
        (anchor, cursor)
    } else {
        (cursor, anchor)
    };
    let end = match far.checked_add(1) {
        Some(e) => if e < len {
            e
        } else {
            len
        },
        None => return false,
    };
    if start > end {
        return false;
    }
    rope_remove(&mut b.rope, start, end);
    b.dirty = true;
    let ghost text2 = remove_range(old(b)@.text, start as int, end as int);
    assert(b@.text =~= text2);
    let len2 = rope_len_chars(&b.rope);
    let ci = if start < len2.saturating_sub(1) {
        start
    } else {
        len2.saturating_sub(1)
    };
    proof { lemma_line_of(text2, ci as int); }
    let cy = rope_char_to_line(&b.rope, ci);
    proof { lemma_line_start(text2, cy as int, num_lines(text2) as int); }
    let ls = rope_line_to_char(&b.rope, cy);
    t.cy = cy;
    t.cx = ci - ls;
    t.mode = Mode::Normal;
    true
}

/// Runs `op` on a buffer and a tab.
fn run_op(op: BufferOp, b: &mut Buffer, t: &mut Tab) -> (ok: bool)
    ensures
        op_done(op, old(b)@, old(t)@, final(b)@, final(t)@, ok),
{
    match op {
        BufferOp::OpenBelow => open_below(b, t),
        BufferOp::OpenAbove => open_above(b, t),
        BufferOp::DeleteChar => delete_char(b, t),
        BufferOp::DeleteLine => delete_line(b, t),
        BufferOp::WordForward => word_forward(b, t),
        BufferOp::WordBackward => word_backward(b, t),
        BufferOp::InsertChar(c) => insert_char(b, t, c),
        BufferOp::NewLine => new_line(b, t),
        BufferOp::Backspace => backspace(b, t),
        BufferOp::DeleteSelection => delete_selection(b, t),
    }
}

/// The note for a buffer that crashed earlier.
pub open spec fn crashed_before_msg() -> Seq<char> {
    "Buffer crashed! Switch with :buffer or :ls"@
}

/// The note for a buffer that crashes now.
pub open spec fn crashes_now_msg() -> Seq<char> {
    "Buffer CRASHED! Switch with :buffer <id>"@
}

/// `op` on the active buffer and tab, isolated: a crashed buffer is left alone with a
/// note, and an operation that cannot run to its end marks the buffer as crashed. The
/// flag tells whether the operation ran to its end.
pub open spec fn with_buffer_spec(v: AppView, op: BufferOp) -> (AppView, bool) {
    let b = v.active_buffer();
    if b.crashed {
        (v.with_status(crashed_before_msg()), false)
    } else {
        let r = op_spec(op, b, v.active());
        if r.2 {
            (v.with_buffer(v.active().buffer_id, r.0).with_active(r.1), true)
        } else {
            (
                v.with_buffer(v.active().buffer_id, BufferView { crashed: true, ..r.0 }).with_active(
                    TabView { status_msg: crashes_now_msg(), ..r.1 },
                ),
                false,
            )
        }
    }
}

impl App {
    /// Runs `op` on the active buffer and tab, with crash isolation: on a crashed buffer
    /// nothing runs, and an operation that cannot run to its end leaves the buffer
    /// marked as crashed. Gives `Some(())` when the operation ran to its end.
    pub fn with_buffer(&mut self, op: BufferOp) -> (r: Option<()>)
        requires
            old(self)@.wf(),
            old(self)@.active_ok(),
        ensures
            final(self)@ == with_buffer_spec(old(self)@, op).0,
            r is Some <==> with_buffer_spec(old(self)@, op).1,
            final(self)@.wf(),
    {
        let a = self.active_tab;
        let bid = self.tabs[a].buffer_id;
        if self.buf().crashed {
            self.tabs[a].status_msg = str_to_string("Buffer crashed! Switch with :buffer or :ls");
            assert(self@.tabs =~= with_buffer_spec(old(self)@, op).0.tabs);
            return None;
        }
        let mut b = self.buffers.remove(&bid).unwrap();
        let ok = run_op(op, &mut b, &mut self.tabs[a]);
        if !ok {
            b.crashed = true;
            self.tabs[a].status_msg = str_to_string("Buffer CRASHED! Switch with :buffer <id>");
        }
        self.buffers.insert(bid, b);
        assert(self@.tabs =~= with_buffer_spec(old(self)@, op).0.tabs);
        assert(self@.buffers =~= with_buffer_spec(old(self)@, op).0.buffers);
        if ok {
            Some(())
        } else {
            None
        }
    }
}

} // verus!
