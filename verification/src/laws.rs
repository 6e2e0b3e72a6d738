//! Properties of the editor that span several operations.
use vstd::prelude::*;
use crate::mode::Mode;
use crate::model::{AppView, TabView, next_tab_spec, prev_tab_spec, kill_buffer_spec, clamp_spec,
    create_buffer_spec, sat_sub, lemma_first_id};
use crate::command::{quit_spec, open_help_spec, show_list_spec, temp_view_spec, remove_buffer_spec};
use crate::text::{num_lines, line_len, line_start, lemma_line_start, lemma_insert_keeps_line_start};
use crate::ops::{BufferOp, op_spec, insert_at, remove_range, edited, with_buffer_spec};
use crate::model::BufferView;
use crate::strutil::{dec_str, digit_char, digits_value, is_digit, is_ws, parse_usize_seq, strip_plus,
    trim_seq, skip_ws_from, drop_ws_before};
use crate::command::with_id_spec;
use crate::render::{in_selection, selection_in_range};
use crate::text::{line_of, lemma_line_of, lemma_starts_upto};
use crate::commands::{command_names, begins_with};
use crate::model::switch_buffer_spec;
use crate::command::{handle_event_spec, clear_cmd, exec_command_spec};
use crate::mode::RequestView;
use crate::cmdline::{Cmd, parse_cmd};
use crate::keys::set_mode;
use crate::mode::{Event, KeyCode, KeyEvent};

verus! {

/// Going to the next tab and then to the previous one comes back to the same tab.
pub proof fn lemma_prev_undoes_next(v: AppView)
    requires
        v.wf(),
    ensures
        prev_tab_spec(next_tab_spec(v)) == v,
{
    lemma_next_index(v.active_tab as int, v.tabs.len() as int);
    let n = v.tabs.len() as int;
    let a = v.active_tab as int;
    let b = next_tab_spec(v).active_tab;
    assert(b == (if a + 1 < n { a + 1 } else { 0 }));
    assert(next_tab_spec(v).tabs.len() == n);
    assert(prev_tab_spec(next_tab_spec(v)).active_tab == v.active_tab);
    assert(prev_tab_spec(next_tab_spec(v)) =~= v);
}

proof fn lemma_next_index(a: int, n: int)
    requires
        0 <= a < n,
    ensures
        (a + 1) % n == if a + 1 < n { a + 1 } else { 0 },
{
    if a + 1 < n {
        assert((a + 1) % n == a + 1) by (nonlinear_arith)
            requires 0 <= a + 1 < n;
    } else {
        assert((a + 1) % n == 0) by (nonlinear_arith)
            requires a + 1 == n, n > 0;
    }
}

/// Going to the previous tab and then to the next one comes back to the same tab.
pub proof fn lemma_next_undoes_prev(v: AppView)
    requires
        v.wf(),
    ensures
        next_tab_spec(prev_tab_spec(v)) == v,
{
    let p = if v.active_tab == 0 { v.tabs.len() - 1 } else { v.active_tab - 1 };
    lemma_next_index(p as int, v.tabs.len() as int);
    assert(next_tab_spec(prev_tab_spec(v)).active_tab == v.active_tab);
    assert(next_tab_spec(prev_tab_spec(v)) =~= v);
}

/// Opening a temporary view (help or the buffer list) from an ordinary view and then
/// quitting it brings the tab back to the buffer, cursor and scroll position it had,
/// and removes the temporary buffer again.
pub proof fn lemma_quit_closes_temp_view(v: AppView, name: Seq<char>, text: Seq<char>, msg: Seq<char>)
    requires
        v.wf(),
        v.active().prev_view is None,
        v.next_buf_id < usize::MAX,
    ensures
        ({
            let w = quit_spec(temp_view_spec(v, name, text, msg));
            let t = v.active();
            let u = w.active();
            &&& w.buffers == v.buffers
            &&& w.tabs.len() == v.tabs.len()
            &&& w.active_tab == v.active_tab
            &&& u.buffer_id == t.buffer_id
            &&& u.cx == t.cx
            &&& u.cy == t.cy
            &&& u.offset == t.offset
            &&& u.prev_view is None
            &&& u.status_msg == Seq::<char>::empty()
            &&& w.quit == v.quit
            &&& w.next_buf_id == v.next_buf_id + 1
            &&& forall|i: int| 0 <= i < v.tabs.len() && i != v.active_tab ==> w.tabs[i] == v.tabs[i]
        }),
{
    let v1 = temp_view_spec(v, name, text, msg);
    assert(!v.buffers.contains_key(v.next_buf_id));
    assert(v1.active().buffer_id == v.next_buf_id);
    assert(quit_spec(v1).buffers =~= v.buffers);
}

/// `:help` then `:q` from an ordinary view returns to it (see `lemma_quit_closes_temp_view`).
pub proof fn lemma_help_then_quit(v: AppView)
    requires
        v.wf(),
        v.active().prev_view is None,
        v.next_buf_id < usize::MAX,
    ensures
        quit_spec(open_help_spec(v)).buffers == v.buffers,
        quit_spec(open_help_spec(v)).active().buffer_id == v.active().buffer_id,
        quit_spec(open_help_spec(v)).active().cx == v.active().cx,
        quit_spec(open_help_spec(v)).active().cy == v.active().cy,
        quit_spec(open_help_spec(v)).active().offset == v.active().offset,
        quit_spec(open_help_spec(v)).active().prev_view is None,
        quit_spec(open_help_spec(v)).active().status_msg == Seq::<char>::empty(),
        quit_spec(open_help_spec(v)).quit == v.quit,
        quit_spec(open_help_spec(v)).active_tab == v.active_tab,
        quit_spec(open_help_spec(v)).tabs.len() == v.tabs.len(),
{
    lemma_quit_closes_temp_view(v, "[Help]"@, crate::help::HELP_TEXT@, "Press :q to close help"@);
}

/// `:help` and then `:q` typed in the help view (Enter on each): the tab is back on its
/// buffer, cursor and scroll position with no message, the help buffer is gone, and the
/// other tabs and the quit flag are as they were.
#[verifier::spinoff_prover]
#[verifier::rlimit(50)]
pub proof fn lemma_help_then_quit_command(v: AppView)
    requires
        v.wf(),
        v.active_ok(),
        v.active().prev_view is None,
        v.active().mode == Mode::Command,
        v.active().command_buf == "help"@,
        v.next_buf_id < usize::MAX,
    ensures
        ({
            let enter = Event::Key(KeyEvent { code: KeyCode::Enter, ctrl: false, other_modifiers: false });
            let v1 = handle_event_spec(v, enter).0;
            let v2 = v1.with_active(TabView { mode: Mode::Command, command_buf: "q"@, ..v1.active() });
            let w = handle_event_spec(v2, enter).0;
            &&& w.buffers == v.buffers
            &&& w.active_tab == v.active_tab
            &&& w.tabs.len() == v.tabs.len()
            &&& w.quit == v.quit
            &&& w.active().buffer_id == v.active().buffer_id
            &&& w.active().cx == v.active().cx
            &&& w.active().cy == v.active().cy
            &&& w.active().offset == v.active().offset
            &&& w.active().prev_view is None
            &&& w.active().status_msg == Seq::<char>::empty()
            &&& w.active().mode == Mode::Normal
            &&& forall|i: int| 0 <= i < v.tabs.len() && i != v.active_tab ==> w.tabs[i] == v.tabs[i]
        }),
{
    reveal_strlit("help");
    reveal_strlit("q");
    lemma_trim_word("help"@);
    lemma_trim_word("q"@);
    lemma_parse_help_quit();
    let t = v.active();
    let vh = v.with_active(TabView { last_command: "help"@, ..t });
    let h = open_help_spec(vh);
    assert(!v.buffers.contains_key(v.next_buf_id));
    assert(h.active().prev_view == Some((t.buffer_id, t.cx, t.cy, t.offset)));
    assert(h.active().buffer_id == v.next_buf_id);
    let enter = Event::Key(KeyEvent { code: KeyCode::Enter, ctrl: false, other_modifiers: false });
    let v1 = handle_event_spec(v, enter).0;
    assert(v1 == set_mode(clear_cmd(h), Mode::Normal)) by {
        assert(exec_command_spec(v) == (clear_cmd(h), RequestView::Done));
    }
    let v2 = v1.with_active(TabView { mode: Mode::Command, command_buf: "q"@, ..v1.active() });
    let v3 = v2.with_active(TabView { last_command: "q"@, ..v2.active() });
    let w = handle_event_spec(v2, enter).0;
    assert(w == set_mode(clear_cmd(quit_spec(v3)), Mode::Normal)) by {
        assert(trim_seq(v2.active().command_buf) == "q"@);
        assert(exec_command_spec(v2) == (clear_cmd(quit_spec(v3)), RequestView::Done));
    }
    assert(v3.active().prev_view == Some((t.buffer_id, t.cx, t.cy, t.offset)));
    assert(v3.active().buffer_id == v.next_buf_id);
    assert(w.buffers =~= v.buffers);
}

/// `help` and `q` read as the commands they name.
proof fn lemma_parse_help_quit()
    ensures
        parse_cmd("help"@) == Cmd::Help,
        parse_cmd("q"@) == Cmd::Quit,
{
    reveal_strlit("help");
    reveal_strlit("q");
    reveal_strlit("q!");
    reveal_strlit("fq");
    reveal_strlit("fq!");
    reveal_strlit("w");
    reveal_strlit("fw");
    reveal_strlit("wq");
    reveal_strlit("x");
    reveal_strlit("fx");
    let h = "help"@;
    assert(h.len() == 4);
    assert(h != "q"@ && h != "q!"@ && h != "fq"@ && h != "fq!"@);
    assert(h != "w"@ && h != "fw"@ && h != "wq"@ && h != "x"@ && h != "fx"@);
}

/// A string without whitespace is its own trim.
proof fn lemma_trim_word(s: Seq<char>)
    requires
        s.len() > 0,
        forall|i: int| 0 <= i < s.len() ==> !is_ws(#[trigger] s[i]),
    ensures
        trim_seq(s) == s,
{
    assert(skip_ws_from(s, 0) == 0);
    assert(drop_ws_before(s, s.len() as int) == s.len());
    assert(s.subrange(0, s.len() as int) =~= s);
}

/// `:ls` then `:q` from an ordinary view returns to it.
pub proof fn lemma_list_then_quit(v: AppView)
    requires
        v.wf(),
        v.active().prev_view is None,
        v.next_buf_id < usize::MAX,
    ensures
        quit_spec(show_list_spec(v)).buffers == v.buffers,
        quit_spec(show_list_spec(v)).active().buffer_id == v.active().buffer_id,
        quit_spec(show_list_spec(v)).active().cx == v.active().cx,
        quit_spec(show_list_spec(v)).active().cy == v.active().cy,
        quit_spec(show_list_spec(v)).active().offset == v.active().offset,
        quit_spec(show_list_spec(v)).active().prev_view is None,
        quit_spec(show_list_spec(v)).active().status_msg == Seq::<char>::empty(),
        quit_spec(show_list_spec(v)).quit == v.quit,
        quit_spec(show_list_spec(v)).active_tab == v.active_tab,
        quit_spec(show_list_spec(v)).tabs.len() == v.tabs.len(),
{
    lemma_quit_closes_temp_view(
        v,
        "[Buffers]"@,
        crate::listing::buffer_list_spec(v),
        "Press :q to close | :buffer <id> to switch"@,
    );
}

/// After clamping, the cursor is on an existing line and within it (in insert mode it
/// may stand just past the end of the line).
pub proof fn lemma_clamp_in_bounds(v: AppView)
    requires
        v.wf(),
        v.active_ok(),
    ensures
        clamp_spec(v).active().cy < num_lines(v.active_text()),
        clamp_spec(v).active().cx <= if v.active().mode == Mode::Insert {
            line_len(v.active_text(), clamp_spec(v).active().cy as int)
        } else {
            sat_sub(line_len(v.active_text(), clamp_spec(v).active().cy as int) as usize, 1) as int
        },
{
    lemma_line_start(v.active_text(), 0, 0);
    let cy = clamp_spec(v).active().cy;
    lemma_line_start(v.active_text(), cy as int, cy + 1);
}

/// Clamping twice is clamping once.
pub proof fn lemma_clamp_idempotent(v: AppView)
    requires
        v.wf(),
        v.active_ok(),
    ensures
        clamp_spec(clamp_spec(v)) == clamp_spec(v),
{
    lemma_line_start(v.active_text(), 0, 0);
    let w = clamp_spec(v);
    assert(w.active_buffer() == v.active_buffer());
    let cy = w.active().cy;
    lemma_line_start(v.active_text(), cy as int, cy + 1);
    assert(clamp_spec(w).tabs =~= w.tabs);
}

/// A new buffer gets a number that no buffer has.
pub proof fn lemma_new_buffer_fresh(v: AppView, filename: Option<Seq<char>>, contents: Seq<char>)
    requires
        v.wf(),
    ensures
        !v.has_buffer(v.next_buf_id),
        create_buffer_spec(v, filename, contents).has_buffer(v.next_buf_id),
{
}

/// Killing a buffer that exists, when it is not the only one, removes exactly it, and
/// afterwards no tab shows it.
pub proof fn lemma_kill_removes(v: AppView, bid: usize)
    requires
        v.wf(),
        v.has_buffer(bid),
        v.buffers.len() > 1,
    ensures
        !kill_buffer_spec(v, bid).has_buffer(bid),
        kill_buffer_spec(v, bid).buffers.len() == v.buffers.len() - 1,
        forall|i: int|
            0 <= i < v.tabs.len() ==> #[trigger] kill_buffer_spec(v, bid).tabs[i].buffer_id != bid,
        forall|id: usize| id != bid ==> (kill_buffer_spec(v, bid).has_buffer(id) <==> v.has_buffer(id)),
{
    let rest = v.buffers.remove(bid);
    let w = kill_buffer_spec(v, bid);
    assert(w.buffers == rest);
    let other = choose|k: usize| v.buffers.dom().contains(k) && k != bid;
    assert(v.buffers.dom().contains(other) && other != bid) by {
        if forall|k: usize| v.buffers.dom().contains(k) ==> k == bid {
            assert(v.buffers.dom() =~= set![bid]);
        }
    }
    lemma_first_id(rest, 0, v.next_buf_id as int, other);
}

proof fn lemma_digit_char(k: nat)
    requires
        k < 10,
    ensures
        is_digit(digit_char(k)),
        ((digit_char(k) as u32) - 48) as nat == k,
{
}

proof fn lemma_dec_digits(n: nat)
    ensures
        dec_str(n).len() >= 1,
        forall|i: int| 0 <= i < dec_str(n).len() ==> is_digit(#[trigger] dec_str(n)[i]),
        digits_value(dec_str(n)) == n,
    decreases n,
{
    if n >= 10 {
        lemma_dec_digits(n / 10);
        lemma_digit_char(n % 10);
        let d = dec_str(n);
        assert(d.drop_last() =~= dec_str(n / 10));
        assert(d.last() == digit_char(n % 10));
        assert(digits_value(d.drop_last()) == n / 10);
        assert(digits_value(d) == digits_value(d.drop_last()) * 10 + ((d.last() as u32) - 48) as nat);
        assert(n == (n / 10) * 10 + n % 10);
    } else {
        lemma_digit_char(n);
        let d = dec_str(n);
        assert(d.drop_last() =~= Seq::<char>::empty());
        assert(digits_value(d.drop_last()) == 0);
        assert(digits_value(d) == digits_value(d.drop_last()) * 10 + ((d.last() as u32) - 48) as nat);
    }
}

/// The decimal digits of `n` read back as `n`: a number written by `{}` parses to itself.
pub proof fn lemma_parse_dec(n: usize)
    ensures
        parse_usize_seq(dec_str(n as nat)) == Some(n),
        trim_seq(dec_str(n as nat)) == dec_str(n as nat),
{
    let d = dec_str(n as nat);
    lemma_dec_digits(n as nat);
    assert(d[0] != '+') by {
        assert(is_digit(d[0]));
    }
    assert(strip_plus(d) == d);
    assert(!is_ws(d[0])) by {
        assert(is_digit(d[0]));
    }
    assert(skip_ws_from(d, 0) == 0);
    assert(!is_ws(d[d.len() - 1])) by {
        assert(is_digit(d[d.len() - 1]));
    }
    assert(drop_ws_before(d, d.len() as int) == d.len());
    assert(d.subrange(0, d.len() as int) =~= d);
}

/// `:buffer N` with a number as the buffer list prints it switches to that buffer, and
/// `:kb N` kills it.
pub proof fn lemma_buffer_command_by_listed_id(v: AppView, id: usize)
    ensures
        with_id_spec(v, dec_str(id as nat), false) == switch_buffer_spec(v, id),
        with_id_spec(v, dec_str(id as nat), true) == kill_buffer_spec(v, id),
{
    lemma_parse_dec(id);
}

/// In insert mode, Backspace takes back a character just typed: text and cursor are as
/// before (the buffer stays marked as changed). This holds for any character typed on
/// an existing line, except an LF typed at the start of a line right after the CR that
/// ended the line before (the two then make one line break).
pub proof fn lemma_backspace_undoes_insert(b: BufferView, t: TabView, c: char)
    requires
        !(c == '\n' && t.cx == 0 && line_start(b.text, t.cy as int) > 0
            && b.text[line_start(b.text, t.cy as int) - 1] == '\r'),
        t.cy < num_lines(b.text),
        line_start(b.text, t.cy as int) + t.cx <= b.text.len(),
        t.cx < usize::MAX,
    ensures
        ({
            let r1 = op_spec(BufferOp::InsertChar(c), b, t);
            let r2 = op_spec(BufferOp::Backspace, r1.0, r1.1);
            &&& r1.2
            &&& r2.2
            &&& r2.0 == edited(b, b.text)
            &&& r2.1 == t
        }),
{
    let text = b.text;
    let p = line_start(text, t.cy as int) + t.cx;
    lemma_line_start(text, t.cy as int, num_lines(text) as int);
    let u = insert_at(text, p, seq![c]);
    assert(u == text.take(p) + seq![c] + text.skip(p));
    lemma_insert_keeps_line_start(text, p, c, t.cy as int);
    let r1 = op_spec(BufferOp::InsertChar(c), b, t);
    assert(r1.0.text == u);
    assert(r1.1.cx == t.cx + 1);
    assert(remove_range(u, p, p + 1) =~= text);
}

/// In insert mode, typing a character and then pressing Backspace leaves the editor as
/// it was, except that the buffer is marked as changed. This holds for any character
/// typed on an existing line, except an LF typed at the start of a line right after the
/// CR that ended the line before.
pub proof fn lemma_typing_then_backspace(v: AppView, c: char)
    requires
        v.wf(),
        v.active_ok(),
        v.active().mode == Mode::Insert,
        !v.active_buffer().crashed,
        !(c == '\n' && v.active().cx == 0 && line_start(v.active_text(), v.active().cy as int) > 0
            && v.active_text()[line_start(v.active_text(), v.active().cy as int) - 1] == '\r'),
        v.active().cy < num_lines(v.active_text()),
        line_start(v.active_text(), v.active().cy as int) + v.active().cx <= v.active_text().len(),
        v.active().cx < usize::MAX,
    ensures
        ({
            let typed = Event::Key(KeyEvent { code: KeyCode::Char(c), ctrl: false, other_modifiers: false });
            let back = Event::Key(KeyEvent { code: KeyCode::Backspace, ctrl: false, other_modifiers: false });
            let v1 = handle_event_spec(v, typed).0;
            handle_event_spec(v1, back).0 == v.with_buffer(
                v.active().buffer_id,
                edited(v.active_buffer(), v.active_text()),
            )
        }),
{
    let b = v.active_buffer();
    let t = v.active();
    lemma_backspace_undoes_insert(b, t, c);
    let r1 = op_spec(BufferOp::InsertChar(c), b, t);
    let r2 = op_spec(BufferOp::Backspace, r1.0, r1.1);
    let v1 = v.with_buffer(t.buffer_id, r1.0).with_active(r1.1);
    assert(r1.1.buffer_id == t.buffer_id && r1.1.mode == Mode::Insert);
    assert(v1.active_buffer() == r1.0);
    let v2 = v1.with_buffer(t.buffer_id, r2.0).with_active(r2.1);
    assert(v2 =~= v.with_buffer(t.buffer_id, edited(b, b.text)));
}

/// A crashed buffer is left alone: while the active tab shows one, no key in normal,
/// insert or visual mode changes any buffer.
pub proof fn lemma_crashed_buffer_untouched(v: AppView, ev: Event)
    requires
        v.wf(),
        v.active_ok(),
        v.active_buffer().crashed,
        v.active().mode != Mode::Command,
    ensures
        handle_event_spec(v, ev).0.buffers == v.buffers,
{
}

/// Crash isolation: whatever an operation does to the active buffer and tab, failing
/// included, every other buffer and every other tab is left as it was, and so are the
/// buffer numbers and the active tab.
pub proof fn lemma_op_stays_in_its_buffer(v: AppView, op: BufferOp)
    requires
        v.wf(),
        v.active_ok(),
    ensures
        ({
            let w = with_buffer_spec(v, op).0;
            &&& w.buffers.dom() == v.buffers.dom()
            &&& forall|id: usize|
                #[trigger] v.buffers.contains_key(id) && id != v.active().buffer_id ==> w.buffers[id] == v.buffers[id]
            &&& w.tabs.len() == v.tabs.len()
            &&& forall|i: int| 0 <= i < v.tabs.len() && i != v.active_tab ==> #[trigger] w.tabs[i] == v.tabs[i]
            &&& w.active_tab == v.active_tab
            &&& w.next_buf_id == v.next_buf_id
            &&& w.quit == v.quit
        }),
{
    assert(with_buffer_spec(v, op).0.buffers.dom() =~= v.buffers.dom());
}

/// In visual mode the character under the cursor is always selected.
pub proof fn lemma_cursor_selected(v: AppView)
    requires
        v.active().mode == Mode::Visual,
        line_start(v.active_text(), v.active().cy as int) + v.active().cx < v.active_text().len(),
    ensures
        in_selection(v, v.active().cy, v.active().cx),
{
}

/// The positions that visual `d` and `x` remove: from the first selected one to one past
/// the last, cut at the end of the text.
pub open spec fn selection_bounds(v: AppView) -> (int, int) {
    let t = v.active();
    let text = v.active_text();
    let a = line_start(text, t.visual_anchor.0 as int) + t.visual_anchor.1;
    let c = line_start(text, t.cy as int) + t.cx;
    let far = if a <= c { c } else { a };
    (if a <= c { a } else { c }, if far + 1 < text.len() { far + 1 } else { text.len() as int })
}

/// Whether the character at position `p` of the active text is selected, found by its
/// line and column as the screen finds it.
pub open spec fn selected_at(v: AppView, p: int) -> bool {
    let text = v.active_text();
    let row = line_of(text, p);
    in_selection(v, row as usize, (p - line_start(text, row)) as usize)
}

/// Visual `d` or `x` deletes exactly the selected characters, which form one run; the
/// buffer is marked changed, the tab goes back to normal mode, and the cursor lands where
/// the run began (on the last character when the run reached the end of the text).
#[verifier::spinoff_prover]
#[verifier::rlimit(40)]
pub proof fn lemma_visual_delete(v: AppView, k: KeyEvent)
    requires
        v.wf(),
        v.active_ok(),
        v.active().mode == Mode::Visual,
        !v.active_buffer().crashed,
        k.code == KeyCode::Char('d') || k.code == KeyCode::Char('x'),
        selection_in_range(v),
        v.active_text().len() < usize::MAX,
        selection_bounds(v).0 <= selection_bounds(v).1,
    ensures
        ({
            let text = v.active_text();
            let s = selection_bounds(v).0;
            let e = selection_bounds(v).1;
            let w = handle_event_spec(v, Event::Key(k)).0;
            let u = w.active_text();
            let last = if u.len() > 0 { u.len() - 1 } else { 0 };
            let ci = if s < last { s } else { last };
            &&& forall|p: int| 0 <= p < text.len() ==> (#[trigger] selected_at(v, p) <==> s <= p < e)
            &&& u == text.take(s) + text.skip(e)
            &&& w.active().buffer_id == v.active().buffer_id
            &&& w.active_buffer().dirty
            &&& w.active().mode == Mode::Normal
            &&& w.active().cy == line_of(u, ci)
            &&& line_start(u, w.active().cy as int) + w.active().cx == ci
        }),
{
    let text = v.active_text();
    lemma_starts_upto(text, text.len() as int);
    assert forall|p: int| 0 <= p < text.len() implies (#[trigger] selected_at(v, p) <==> selection_bounds(v).0 <= p < selection_bounds(v).1) by {
        lemma_line_of(text, p);
    }
    let s = selection_bounds(v).0;
    let e = selection_bounds(v).1;
    let u = remove_range(text, s, e);
    let last = if u.len() > 0 { u.len() - 1 } else { 0 };
    let ci = if s < last { s } else { last };
    lemma_line_of(u, ci);
    lemma_starts_upto(u, u.len() as int);
    let r = op_spec(BufferOp::DeleteSelection, v.active_buffer(), v.active());
    assert(r.2);
    assert(r.0.text == u);
    assert(r.1.cy == line_of(u, ci));
}

/// With nothing typed, the palette's filter keeps every command, in palette order.
pub proof fn lemma_empty_filter_keeps_all()
    ensures
        command_names().filter(begins_with(Seq::empty())) == command_names(),
{
    let pred = begins_with(Seq::empty());
    assert forall|i: int| 0 <= i < command_names().len() implies pred(#[trigger] command_names()[i]) by {
        assert(command_names()[i].take(0) =~= Seq::<char>::empty());
    }
    lemma_filter_all(command_names(), pred);
}

proof fn lemma_filter_all(s: Seq<Seq<char>>, pred: spec_fn(Seq<char>) -> bool)
    requires
        forall|i: int| 0 <= i < s.len() ==> pred(#[trigger] s[i]),
    ensures
        s.filter(pred) == s,
    decreases s.len(),
{
    reveal_with_fuel(Seq::<_>::filter, 1);
    if s.len() > 0 {
        lemma_filter_all(s.drop_last(), pred);
        assert(pred(s[s.len() - 1]));
        assert(s.drop_last().push(s.last()) =~= s);
    }
}

} // verus!
