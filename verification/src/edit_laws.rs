//! What the editing keys do to the text and the cursor, stated for every cursor
//! position: `o`, `d`, `x` and `w` in normal mode, Enter in insert mode.
use vstd::prelude::*;
use crate::mode::{Mode, Event, KeyCode, KeyEvent};
use crate::model::{AppView, TabView, BufferView, sat_sub};
use crate::text::{starts_upto, num_lines, line_len, line_start, lemma_line_start, ends_line_at, full_line_len,
    lemma_starts_count, lemma_line_after_break, lemma_delete_line_count};
use crate::ops::{line_chars, skip_word, skip_space, BufferOp, op_spec, with_buffer_spec};
use crate::strutil::is_ws;
use crate::command::handle_event_spec;

verus! {

/// The editor after key `k`.
pub open spec fn after_key(v: AppView, k: KeyEvent) -> AppView {
    handle_event_spec(v, Event::Key(k)).0
}

/// A tab that can be edited: the editor is well formed, the tab shows an existing buffer
/// that has not crashed, and the tab is in mode `m`.
pub open spec fn editable_in(v: AppView, m: Mode) -> bool {
    &&& v.wf()
    &&& v.active_ok()
    &&& !v.active_buffer().crashed
    &&& v.active().mode == m
}

/// `w` is `v` with nothing changed but the active buffer's text and changed flag and the
/// active tab's cursor and mode: the other buffers and tabs, the rest of the active
/// tab (status, selection anchor, ...) and of the active buffer stay as they were.
pub open spec fn only_text_and_cursor_changed(v: AppView, w: AppView) -> bool {
    &&& w.active_tab == v.active_tab
    &&& w.tabs.len() == v.tabs.len()
    &&& w.next_buf_id == v.next_buf_id
    &&& w.quit == v.quit
    &&& forall|i: int| 0 <= i < v.tabs.len() && i != v.active_tab ==> #[trigger] w.tabs[i] == v.tabs[i]
    &&& w.active() == TabView { cx: w.active().cx, cy: w.active().cy, mode: w.active().mode, ..v.active() }
    &&& w.buffers == v.buffers.insert(
        v.active().buffer_id,
        BufferView { text: w.active_text(), dirty: w.active_buffer().dirty, ..v.active_buffer() },
    )
}

/// An operation that runs to its end on the active buffer leaves the buffer and the tab
/// that it computes.
proof fn lemma_op_applied(v: AppView, op: BufferOp)
    requires
        v.wf(),
        v.active_ok(),
        !v.active_buffer().crashed,
        op_spec(op, v.active_buffer(), v.active()).2,
        ({
            let r = op_spec(op, v.active_buffer(), v.active());
            &&& r.1 == TabView { cx: r.1.cx, cy: r.1.cy, mode: r.1.mode, ..v.active() }
            &&& r.0 == BufferView { text: r.0.text, dirty: r.0.dirty, ..v.active_buffer() }
        }),
    ensures
        only_text_and_cursor_changed(v, with_buffer_spec(v, op).0),
        with_buffer_spec(v, op).0.active() == op_spec(op, v.active_buffer(), v.active()).1,
        with_buffer_spec(v, op).0.active_buffer() == op_spec(op, v.active_buffer(), v.active()).0,
{
    let r = op_spec(op, v.active_buffer(), v.active());
    let w = with_buffer_spec(v, op).0;
    assert(w == v.with_buffer(v.active().buffer_id, r.0).with_active(r.1));
    assert(w.active() == r.1);
    assert(w.active_buffer() == r.0);
}

/// `o` on line `cy` puts a line break at the start of line `cy + 1` (the end of the text
/// on the last line), so an empty line follows line `cy`; the cursor goes to column 0 of
/// that new line, line `cy + 1`, in insert mode. (Where line `cy` ends with a CR alone,
/// the new line feed joins it into one break, and no empty line appears.)
pub proof fn lemma_o_opens_line_below(v: AppView, k: KeyEvent)
    requires
        editable_in(v, Mode::Normal),
        k.code == KeyCode::Char('o'),
        v.active().cy < num_lines(v.active_text()),
        v.active().cy < usize::MAX,
    ensures
        ({
            let text = v.active_text();
            let t = v.active();
            let w = after_key(v, k);
            let p = line_start(text, t.cy + 1);
            &&& w.active_text() == text.take(p) + seq!['\n'] + text.skip(p)
            &&& w.active().buffer_id == t.buffer_id
            &&& only_text_and_cursor_changed(v, w)
            &&& w.active().cy == t.cy + 1
            &&& w.active().cx == 0
            &&& w.active().mode == Mode::Insert
            &&& w.active_buffer().dirty
            &&& !(p > 0 && text[p - 1] == '\r' && ends_line_at(text, p)) ==> {
                &&& t.cy + 1 < num_lines(w.active_text())
                &&& line_len(w.active_text(), t.cy + 1) == 0
                &&& line_start(w.active_text(), t.cy as int) == line_start(text, t.cy as int)
            }
        }),
{
    let text = v.active_text();
    let t = v.active();
    let p = line_start(text, t.cy + 1);
    let u = text.take(p) + seq!['\n'] + text.skip(p);
    lemma_line_start(text, t.cy as int, t.cy + 1);
    if !(p > 0 && text[p - 1] == '\r' && ends_line_at(text, p)) {
        if t.cy + 1 < num_lines(text) {
            if t.cy + 2 < num_lines(text) {
                lemma_line_start(text, t.cy + 1, t.cy + 2);
            }
            lemma_starts_count(text, t.cy + 1, p);
            lemma_line_after_break(text, p, t.cy + 1);
            crate::text::lemma_starts_prefix(text, p, text.len() as int);
            assert(line_start(u, t.cy as int) == starts_upto(text, p)[t.cy as int]);
            assert(line_start(u, t.cy + 1) == p);
            assert(u[p] == '\n');
            assert(full_line_len(u, t.cy + 1) == 1);
        } else {
            lemma_starts_count(text, t.cy as int, p);
            lemma_line_after_break(text, p, t.cy as int);
            lemma_line_start(u, t.cy + 1, t.cy + 2);
            assert(full_line_len(u, t.cy + 1) == 0);
        }
        assert(line_start(u, t.cy as int) == line_start(text, t.cy as int));
    }
    let r = op_spec(BufferOp::OpenBelow, v.active_buffer(), v.active());
    assert(r.2 && r.1.cy == v.active().cy + 1);
    assert(after_key(v, k) == with_buffer_spec(v, BufferOp::OpenBelow).0);
    lemma_op_applied(v, BufferOp::OpenBelow);
}

/// `d` with more than one line removes exactly line `cy` with its line break: the
/// characters from the start of line `cy` to the start of line `cy + 1` (to the end of
/// the text on the last line). With a single line it empties the text. The cursor stays.
/// When a line follows line `cy`, the text has one line fewer afterwards (unless the LF
/// that then follows a CR ending line `cy - 1` joins it into one break).
pub proof fn lemma_d_deletes_line(v: AppView, k: KeyEvent)
    requires
        editable_in(v, Mode::Normal),
        k.code == KeyCode::Char('d'),
        v.active().cy < num_lines(v.active_text()),
    ensures
        ({
            let text = v.active_text();
            let t = v.active();
            let w = after_key(v, k);
            let a = line_start(text, t.cy as int);
            let e = line_start(text, t.cy + 1);
            &&& num_lines(text) > 1 ==> w.active_text() == text.take(a) + text.skip(e)
            &&& num_lines(text) > 1 ==> w.active_text().len() == text.len() - (e - a)
            &&& t.cy + 1 < num_lines(text) && !(a > 0 && text[a - 1] == '\r' && e < text.len() && text[e] == '\n')
                ==> num_lines(w.active_text()) == num_lines(text) - 1
            &&& num_lines(text) <= 1 ==> w.active_text() == Seq::<char>::empty()
            &&& w.active().buffer_id == t.buffer_id
            &&& only_text_and_cursor_changed(v, w)
            &&& w.active().cy == t.cy
            &&& w.active().cx == t.cx
            &&& w.active_buffer().dirty
        }),
{
    let text = v.active_text();
    let t = v.active();
    lemma_line_start(text, t.cy as int, t.cy + 1);
    let a = line_start(text, t.cy as int);
    let e = line_start(text, t.cy + 1);
    if t.cy + 1 < num_lines(text) && !(a > 0 && text[a - 1] == '\r' && e < text.len() && text[e] == '\n') {
        lemma_delete_line_count(text, t.cy as int);
    }
    assert(after_key(v, k) == with_buffer_spec(v, BufferOp::DeleteLine).0);
    lemma_op_applied(v, BufferOp::DeleteLine);
}

/// `x` on a line that is not empty removes exactly the character at position
/// `line_start(cy) + cx`, the one under the cursor; on an empty line it changes nothing.
/// The cursor stays.
pub proof fn lemma_x_deletes_char_under_cursor(v: AppView, k: KeyEvent)
    requires
        editable_in(v, Mode::Normal),
        k.code == KeyCode::Char('x'),
        v.active().cy < num_lines(v.active_text()),
        line_len(v.active_text(), v.active().cy as int) > 0 ==> line_start(v.active_text(), v.active().cy as int)
            + v.active().cx < v.active_text().len(),
    ensures
        ({
            let text = v.active_text();
            let t = v.active();
            let w = after_key(v, k);
            let i = line_start(text, t.cy as int) + t.cx;
            let u = w.active_text();
            &&& line_len(text, t.cy as int) > 0 ==> {
                &&& u.len() == text.len() - 1
                &&& forall|j: int| 0 <= j < i ==> u[j] == text[j]
                &&& forall|j: int| i <= j < u.len() ==> u[j] == text[j + 1]
            }
            &&& line_len(text, t.cy as int) == 0 ==> u == text
            &&& w.active().buffer_id == t.buffer_id
            &&& only_text_and_cursor_changed(v, w)
            &&& w.active().cy == t.cy
            &&& w.active().cx == t.cx
        }),
{
    let text = v.active_text();
    let t = v.active();
    lemma_line_start(text, t.cy as int, t.cy + 1);
    let r = op_spec(BufferOp::DeleteChar, v.active_buffer(), t);
    assert(r.2);
    assert(after_key(v, k) == with_buffer_spec(v, BufferOp::DeleteChar).0);
    lemma_op_applied(v, BufferOp::DeleteChar);
    let i = line_start(text, t.cy as int) + t.cx;
    if line_len(text, t.cy as int) > 0 {
        let u = text.take(i) + text.skip(i + 1);
        assert(after_key(v, k).active_text() == u);
        assert forall|j: int| i <= j < u.len() implies u[j] == text[j + 1] by {
            assert(u[j] == text.skip(i + 1)[j - i]);
            assert(text.skip(i + 1)[j - i] == text[j + 1]);
        }
    }
}

/// Past the characters that are not whitespace, from `i` on: the run ends at a
/// whitespace character or at the end.
proof fn lemma_skip_word(s: Seq<char>, i: int)
    requires
        0 <= i,
    ensures
        i <= skip_word(s, i),
        forall|q: int| i <= q < skip_word(s, i) && q < s.len() ==> !is_ws(#[trigger] s[q]),
        skip_word(s, i) >= s.len() || is_ws(s[skip_word(s, i)]),
    decreases s.len() - i,
{
    if 0 <= i < s.len() && !is_ws(s[i]) {
        lemma_skip_word(s, i + 1);
    }
}

/// Past whitespace, from `i` on: the run ends at a character that is not whitespace or
/// at the end.
proof fn lemma_skip_space(s: Seq<char>, i: int)
    requires
        0 <= i,
    ensures
        i <= skip_space(s, i),
        forall|q: int| i <= q < skip_space(s, i) && q < s.len() ==> is_ws(#[trigger] s[q]),
        skip_space(s, i) >= s.len() || !is_ws(s[skip_space(s, i)]),
    decreases s.len() - i,
{
    if 0 <= i < s.len() && is_ws(s[i]) {
        lemma_skip_space(s, i + 1);
    }
}

/// Along `s` from `from`: `m` ends the run of characters that are not whitespace (no
/// run when `s[from]` is whitespace), and `e` ends the run of whitespace after it; a run
/// also ends at the end of `s`.
pub open spec fn word_then_space(s: Seq<char>, from: int, m: int, e: int) -> bool {
    &&& from <= m <= e
    &&& forall|q: int| from <= q < m && q < s.len() ==> !is_ws(#[trigger] s[q])
    &&& m >= s.len() || is_ws(s[m])
    &&& forall|q: int| m <= q < e && q < s.len() ==> is_ws(#[trigger] s[q])
    &&& e >= s.len() || !is_ws(s[e])
}

/// `w` moves along line `cy` (its line break included) from the cursor past the run of
/// characters that are not whitespace (none when the cursor is on whitespace), and then
/// past the whitespace that follows, to `e`, the start of the next word; the cursor's
/// column becomes `e`, but at most the line's last character. Nothing else changes.
pub proof fn lemma_w_moves_to_next_word(v: AppView, k: KeyEvent)
    requires
        editable_in(v, Mode::Normal),
        k.code == KeyCode::Char('w'),
        v.active().cy < num_lines(v.active_text()),
    ensures
        ({
            let text = v.active_text();
            let t = v.active();
            let w = after_key(v, k);
            let s = line_chars(text, t.cy as int);
            let last = sat_sub(line_len(text, t.cy as int) as usize, 1);
            &&& exists|m: int, e: int|
                #[trigger] word_then_space(s, t.cx as int, m, e) && w.active().cx == if e < last { e } else { last as int }
            &&& w.active_text() == text
            &&& w.active().buffer_id == t.buffer_id
            &&& only_text_and_cursor_changed(v, w)
            &&& w.active().cy == t.cy
            &&& w.active().mode == Mode::Normal
        }),
{
    let text = v.active_text();
    let t = v.active();
    let s = line_chars(text, t.cy as int);
    let m = skip_word(s, t.cx as int);
    lemma_skip_word(s, t.cx as int);
    let e = skip_space(s, m);
    lemma_skip_space(s, m);
    let last = sat_sub(line_len(text, t.cy as int) as usize, 1);
    let r = op_spec(BufferOp::WordForward, v.active_buffer(), t);
    assert(r.2);
    assert(r.1.cx == if e < last { e } else { last as int });
    assert(after_key(v, k) == with_buffer_spec(v, BufferOp::WordForward).0);
    lemma_op_applied(v, BufferOp::WordForward);
    let w = after_key(v, k);
    assert(w.active().cx == if e < last { e } else { last as int });
    assert(word_then_space(s, t.cx as int, m, e));
}

/// Enter in insert mode at column `cx` of line `cy` puts a line break at position
/// `line_start(cy) + cx` and moves the cursor to column 0 of line `cy + 1`, for every
/// `cx`, 0 included. When the cursor lies on line `cy`, line `cy + 1` of the new text is
/// the one that starts right after the new break, and line `cy` still starts where it
/// did (unless the line feed joins a CR that ended a line right at the cursor).
pub proof fn lemma_enter_breaks_line(v: AppView, k: KeyEvent)
    requires
        editable_in(v, Mode::Insert),
        k.code == KeyCode::Enter,
        v.active().cy <= num_lines(v.active_text()),
        line_start(v.active_text(), v.active().cy as int) + v.active().cx <= v.active_text().len(),
        v.active().cy < usize::MAX,
    ensures
        ({
            let text = v.active_text();
            let t = v.active();
            let w = after_key(v, k);
            let i = line_start(text, t.cy as int) + t.cx;
            &&& w.active_text() == text.take(i) + seq!['\n'] + text.skip(i)
            &&& t.cy < num_lines(text) && (t.cy + 1 < num_lines(text) ==> i < line_start(text, t.cy + 1)) && !(i > 0
                && text[i - 1] == '\r' && ends_line_at(text, i)) ==> {
                &&& t.cy + 1 < num_lines(w.active_text())
                &&& line_start(w.active_text(), t.cy + 1) == i + 1
                &&& line_start(w.active_text(), t.cy as int) == line_start(text, t.cy as int)
            }
            &&& w.active().buffer_id == t.buffer_id
            &&& only_text_and_cursor_changed(v, w)
            &&& w.active().cy == t.cy + 1
            &&& w.active().cx == 0
            &&& w.active().mode == Mode::Insert
            &&& w.active_buffer().dirty
        }),
{
    let text = v.active_text();
    let t = v.active();
    let i = line_start(text, t.cy as int) + t.cx;
    if t.cy < num_lines(text) && (t.cy + 1 < num_lines(text) ==> i < line_start(text, t.cy + 1)) && !(i > 0
        && text[i - 1] == '\r' && ends_line_at(text, i)) {
        lemma_line_start(text, t.cy as int, t.cy as int);
        lemma_starts_count(text, t.cy as int, i);
        lemma_line_after_break(text, i, t.cy as int);
    }
    assert(after_key(v, k) == with_buffer_spec(v, BufferOp::NewLine).0);
    lemma_op_applied(v, BufferOp::NewLine);
}


/// `O` on line `cy` puts a line break at the start of line `cy`, so an empty line comes
/// before it; the cursor stays on line `cy`, now that empty line, at column 0, in insert
/// mode.
pub proof fn lemma_shift_o_opens_line_above(v: AppView, k: KeyEvent)
    requires
        editable_in(v, Mode::Normal),
        k.code == KeyCode::Char('O'),
        v.active().cy <= num_lines(v.active_text()),
    ensures
        ({
            let text = v.active_text();
            let t = v.active();
            let w = after_key(v, k);
            let p = line_start(text, t.cy as int);
            &&& w.active_text() == text.take(p) + seq!['\n'] + text.skip(p)
            &&& w.active().buffer_id == t.buffer_id
            &&& only_text_and_cursor_changed(v, w)
            &&& w.active().cy == t.cy
            &&& w.active().cx == 0
            &&& w.active().mode == Mode::Insert
            &&& w.active_buffer().dirty
        }),
{
    let r = op_spec(BufferOp::OpenAbove, v.active_buffer(), v.active());
    assert(r.2);
    assert(after_key(v, k) == with_buffer_spec(v, BufferOp::OpenAbove).0);
    lemma_op_applied(v, BufferOp::OpenAbove);
}

/// Along `s`, going back from `from`: `m` ends the run of whitespace that `from` starts
/// (looking at `s[from]`, none when it is not whitespace), and `e` is where the word that
/// ends at `m` begins (looking at `s[e - 1]`); both runs stop at 0.
pub open spec fn space_then_word_back(s: Seq<char>, from: int, m: int, e: int) -> bool {
    &&& 0 <= e <= m <= from
    &&& forall|q: int| m < q <= from ==> is_ws(#[trigger] s[q])
    &&& m == 0 || !is_ws(s[m])
    &&& forall|q: int| e <= q < m ==> !is_ws(#[trigger] s[q])
    &&& e == 0 || is_ws(s[e - 1])
}

proof fn lemma_back_space(s: Seq<char>, i: int)
    requires
        0 <= i,
        i == 0 || i < s.len(),
    ensures
        0 <= crate::ops::back_space(s, i) <= i,
        forall|q: int| crate::ops::back_space(s, i) < q <= i ==> is_ws(#[trigger] s[q]),
        crate::ops::back_space(s, i) == 0 || !is_ws(s[crate::ops::back_space(s, i)]),
    decreases i,
{
    if 0 < i < s.len() && is_ws(s[i]) {
        lemma_back_space(s, i - 1);
    }
}

proof fn lemma_back_word(s: Seq<char>, i: int)
    requires
        0 <= i <= s.len(),
    ensures
        0 <= crate::ops::back_word(s, i) <= i,
        forall|q: int| crate::ops::back_word(s, i) <= q < i ==> !is_ws(#[trigger] s[q]),
        crate::ops::back_word(s, i) == 0 || is_ws(s[crate::ops::back_word(s, i) - 1]),
    decreases i,
{
    if 0 < i <= s.len() && !is_ws(s[i - 1]) {
        lemma_back_word(s, i - 1);
    }
}

/// `b` looks at line `cy` (its line break included) from the character before the
/// cursor: back over whitespace, then back to the start of the word found there; the
/// cursor's column becomes that start. Nothing else changes.
pub proof fn lemma_b_moves_to_word_start(v: AppView, k: KeyEvent)
    requires
        editable_in(v, Mode::Normal),
        k.code == KeyCode::Char('b'),
        v.active().cy < num_lines(v.active_text()),
        ({
            let i = sat_sub(v.active().cx, 1) as int;
            i == 0 || i < line_chars(v.active_text(), v.active().cy as int).len()
        }),
    ensures
        ({
            let text = v.active_text();
            let t = v.active();
            let w = after_key(v, k);
            let s = line_chars(text, t.cy as int);
            &&& exists|m: int, e: int|
                #[trigger] space_then_word_back(s, sat_sub(t.cx, 1) as int, m, e) && w.active().cx == e
            &&& w.active_text() == text
            &&& w.active().buffer_id == t.buffer_id
            &&& only_text_and_cursor_changed(v, w)
            &&& w.active().cy == t.cy
            &&& w.active().mode == Mode::Normal
        }),
{
    let text = v.active_text();
    let t = v.active();
    let s = line_chars(text, t.cy as int);
    let i = sat_sub(t.cx, 1) as int;
    let m = crate::ops::back_space(s, i);
    lemma_back_space(s, i);
    let e = crate::ops::back_word(s, m);
    lemma_back_word(s, m);
    let r = op_spec(BufferOp::WordBackward, v.active_buffer(), t);
    assert(r.2);
    assert(after_key(v, k) == with_buffer_spec(v, BufferOp::WordBackward).0);
    lemma_op_applied(v, BufferOp::WordBackward);
    assert(space_then_word_back(s, i, m, e));
}

/// Typing `c` in insert mode puts `c` at the cursor's position `line_start(cy) + cx` and
/// moves the cursor one column right on the same line.
pub proof fn lemma_typing_inserts_at_cursor(v: AppView, k: KeyEvent, c: char)
    requires
        editable_in(v, Mode::Insert),
        k.code == KeyCode::Char(c),
        !k.ctrl,
        v.active().cy <= num_lines(v.active_text()),
        line_start(v.active_text(), v.active().cy as int) + v.active().cx <= v.active_text().len(),
        v.active().cx < usize::MAX,
    ensures
        ({
            let text = v.active_text();
            let t = v.active();
            let w = after_key(v, k);
            let i = line_start(text, t.cy as int) + t.cx;
            &&& w.active_text() == text.take(i) + seq![c] + text.skip(i)
            &&& w.active().buffer_id == t.buffer_id
            &&& only_text_and_cursor_changed(v, w)
            &&& w.active().cy == t.cy
            &&& w.active().cx == t.cx + 1
            &&& w.active().mode == Mode::Insert
            &&& w.active_buffer().dirty
        }),
{
    let r = op_spec(BufferOp::InsertChar(c), v.active_buffer(), v.active());
    assert(r.2);
    assert(after_key(v, k) == with_buffer_spec(v, BufferOp::InsertChar(c)).0);
    lemma_op_applied(v, BufferOp::InsertChar(c));
}

/// Backspace in insert mode at position `i = line_start(cy) + cx > 0` removes exactly the
/// character before the cursor, at `i - 1`. Inside a line the cursor moves one column
/// left; at the start of line `cy > 0` it goes to the end of line `cy - 1` of the new
/// text. At the very start of the text nothing changes.
pub proof fn lemma_backspace_removes_char_before(v: AppView, k: KeyEvent)
    requires
        editable_in(v, Mode::Insert),
        k.code == KeyCode::Backspace,
        v.active().cy <= num_lines(v.active_text()),
        line_start(v.active_text(), v.active().cy as int) + v.active().cx <= v.active_text().len(),
        v.active_text().len() < usize::MAX,
        v.active().cx == 0 && v.active().cy > 0 && line_start(v.active_text(), v.active().cy as int) > 0
            ==> v.active().cy - 1 < num_lines(
            v.active_text().take(line_start(v.active_text(), v.active().cy as int) - 1) + v.active_text().skip(
                line_start(v.active_text(), v.active().cy as int),
            ),
        ),
    ensures
        ({
            let text = v.active_text();
            let t = v.active();
            let w = after_key(v, k);
            let i = line_start(text, t.cy as int) + t.cx;
            let u = w.active_text();
            &&& i > 0 ==> u == text.take(i - 1) + text.skip(i)
            &&& i > 0 ==> w.active_buffer().dirty
            &&& i > 0 && t.cx > 0 ==> w.active().cy == t.cy && w.active().cx == t.cx - 1
            &&& i > 0 && t.cx == 0 && t.cy > 0 ==> w.active().cy == t.cy - 1 && w.active().cx == line_len(
                u,
                t.cy - 1,
            )
            &&& i == 0 ==> u == text && w.active().cy == t.cy && w.active().cx == t.cx
            &&& w.active().buffer_id == t.buffer_id
            &&& only_text_and_cursor_changed(v, w)
            &&& w.active().mode == Mode::Insert
        }),
{
    let text = v.active_text();
    let t = v.active();
    let r = op_spec(BufferOp::Backspace, v.active_buffer(), t);
    lemma_line_start(text, t.cy as int, t.cy as int);
    let i = line_start(text, t.cy as int) + t.cx;
    if i > 0 && t.cx == 0 && t.cy > 0 {
        let u = text.take(i - 1) + text.skip(i);
        lemma_line_start(u, t.cy - 1, t.cy as int);
        assert(0 <= line_len(u, t.cy - 1) <= u.len());
        assert(r.1.cx == line_len(u, t.cy - 1));
    }
    assert(r.2);
    assert(after_key(v, k) == with_buffer_spec(v, BufferOp::Backspace).0);
    lemma_op_applied(v, BufferOp::Backspace);
}

} // verus!
