//! Command lines that name the same command do the same thing; in particular each short
//! form of a command has the effect of its long form.
use vstd::prelude::*;
use crate::model::{AppView, TabView, BufferView, close_tab_spec, create_buffer_spec, new_tab_spec,
    kill_buffer_spec, retarget_tab};
use crate::command::{quit_spec, clear_cmd, save_start_spec, temp_view_spec, with_id_spec,
    remove_buffer_spec, exec_command_spec, bufnew_spec, rename_spec};
use crate::listing::buffer_list_spec;
use crate::cmdline::{Cmd, parse_cmd};
use crate::strutil::{trim_seq, strip_prefix_seq};

verus! {

/// A tab with its command line and its last command forgotten.
pub open spec fn without_line(t: TabView) -> TabView {
    TabView { command_buf: Seq::empty(), last_command: Seq::empty(), ..t }
}

/// Two editors that differ at most in what their tabs hold as command line and as last
/// command.
pub open spec fn alike(x: AppView, y: AppView) -> bool {
    &&& x.buffers == y.buffers
    &&& x.active_tab == y.active_tab
    &&& x.next_buf_id == y.next_buf_id
    &&& x.quit == y.quit
    &&& x.tabs.len() == y.tabs.len()
    &&& forall|i: int| 0 <= i < x.tabs.len() ==> #[trigger] without_line(x.tabs[i]) == without_line(y.tabs[i])
}

/// The active tab's command line set to `c`.
pub open spec fn with_command_line(v: AppView, c: Seq<char>) -> AppView {
    v.with_active(TabView { command_buf: c, ..v.active() })
}

proof fn lemma_alike_active(x: AppView, y: AppView)
    requires
        alike(x, y),
        x.active_tab < x.tabs.len(),
    ensures
        without_line(x.active()) == without_line(y.active()),
        x.active().buffer_id == y.active().buffer_id,
        x.active().prev_view == y.active().prev_view,
        x.active_buffer() == y.active_buffer(),
{
    assert(without_line(x.tabs[x.active_tab as int]) == without_line(y.tabs[y.active_tab as int]));
}

proof fn lemma_with_active(x: AppView, y: AppView, tx: TabView, ty: TabView)
    requires
        alike(x, y),
        x.active_tab < x.tabs.len(),
        without_line(tx) == without_line(ty),
    ensures
        alike(x.with_active(tx), y.with_active(ty)),
{
    let a = x.with_active(tx);
    let b = y.with_active(ty);
    assert forall|i: int| 0 <= i < a.tabs.len() implies #[trigger] without_line(a.tabs[i]) == without_line(b.tabs[i]) by {
        if i != x.active_tab {
            assert(without_line(x.tabs[i]) == without_line(y.tabs[i]));
        }
    }
}

proof fn lemma_with_status(x: AppView, y: AppView, m: Seq<char>)
    requires
        alike(x, y),
        x.active_tab < x.tabs.len(),
    ensures
        alike(x.with_status(m), y.with_status(m)),
{
    lemma_alike_active(x, y);
    lemma_with_active(x, y, TabView { status_msg: m, ..x.active() }, TabView { status_msg: m, ..y.active() });
}

proof fn lemma_clear_cmd(x: AppView, y: AppView)
    requires
        alike(x, y),
        x.active_tab < x.tabs.len(),
    ensures
        alike(clear_cmd(x), clear_cmd(y)),
{
    lemma_alike_active(x, y);
    lemma_with_active(
        x,
        y,
        TabView { command_buf: Seq::empty(), ..x.active() },
        TabView { command_buf: Seq::empty(), ..y.active() },
    );
}

proof fn lemma_close_tab(x: AppView, y: AppView)
    requires
        alike(x, y),
        x.active_tab < x.tabs.len(),
    ensures
        alike(close_tab_spec(x), close_tab_spec(y)),
{
    if x.tabs.len() > 1 {
        let a = close_tab_spec(x);
        let b = close_tab_spec(y);
        let k = x.active_tab as int;
        assert forall|i: int| 0 <= i < a.tabs.len() implies #[trigger] without_line(a.tabs[i]) == without_line(b.tabs[i]) by {
            if i < k {
                assert(without_line(x.tabs[i]) == without_line(y.tabs[i]));
            } else {
                assert(without_line(x.tabs[i + 1]) == without_line(y.tabs[i + 1]));
            }
        }
    }
}

proof fn lemma_with_buffer(x: AppView, y: AppView, id: usize, bf: BufferView)
    requires
        alike(x, y),
    ensures
        alike(x.with_buffer(id, bf), y.with_buffer(id, bf)),
        alike(remove_buffer_spec(x, id), remove_buffer_spec(y, id)),
{
}

proof fn lemma_create_buffer(x: AppView, y: AppView, f: Option<Seq<char>>, c: Seq<char>)
    requires
        alike(x, y),
    ensures
        alike(create_buffer_spec(x, f, c), create_buffer_spec(y, f, c)),
        alike(new_tab_spec(x, f, c), new_tab_spec(y, f, c)),
{
    let a = new_tab_spec(x, f, c);
    let b = new_tab_spec(y, f, c);
    assert forall|i: int| 0 <= i < a.tabs.len() implies #[trigger] without_line(a.tabs[i]) == without_line(b.tabs[i]) by {
        if i < x.tabs.len() {
            assert(without_line(x.tabs[i]) == without_line(y.tabs[i]));
        }
    }
}

proof fn lemma_quit(x: AppView, y: AppView)
    requires
        alike(x, y),
        x.active_tab < x.tabs.len(),
    ensures
        alike(quit_spec(x), quit_spec(y)),
{
    lemma_alike_active(x, y);
    let t = x.active();
    let u = y.active();
    match t.prev_view {
        Some(p) => {
            let tx = TabView { buffer_id: p.0, cx: p.1, cy: p.2, offset: p.3, prev_view: None, status_msg: Seq::empty(), ..t };
            let ty = TabView { buffer_id: p.0, cx: p.1, cy: p.2, offset: p.3, prev_view: None, status_msg: Seq::empty(), ..u };
            lemma_with_active(x, y, tx, ty);
            lemma_with_buffer(x.with_active(tx), y.with_active(ty), t.buffer_id, x.active_buffer());
        },
        None => lemma_close_tab(x, y),
    }
}

proof fn lemma_save_start(x: AppView, y: AppView, close: bool)
    requires
        alike(x, y),
        x.active_tab < x.tabs.len(),
    ensures
        save_start_spec(x, close).1 == save_start_spec(y, close).1,
        alike(save_start_spec(x, close).0, save_start_spec(y, close).0),
{
    lemma_alike_active(x, y);
    if x.active_buffer().filename is None {
        lemma_with_status(x, y, "No filename"@);
        let a = x.with_status("No filename"@);
        let b = y.with_status("No filename"@);
        if close {
            lemma_close_tab(a, b);
            lemma_clear_cmd(close_tab_spec(a), close_tab_spec(b));
        } else {
            lemma_clear_cmd(a, b);
        }
    }
}

proof fn lemma_temp_view(x: AppView, y: AppView, name: Seq<char>, text: Seq<char>, msg: Seq<char>)
    requires
        alike(x, y),
        x.active_tab < x.tabs.len(),
    ensures
        alike(temp_view_spec(x, name, text, msg), temp_view_spec(y, name, text, msg)),
        buffer_list_spec(x) == buffer_list_spec(y),
{
    lemma_alike_active(x, y);
    let t = x.active();
    let u = y.active();
    if t.prev_view is Some {
        let bx = x.with_buffer(t.buffer_id, BufferView { text, filename: Some(name), ..x.active_buffer() });
        let by = y.with_buffer(u.buffer_id, BufferView { text, filename: Some(name), ..y.active_buffer() });
        lemma_with_buffer(x, y, t.buffer_id, BufferView { text, filename: Some(name), ..x.active_buffer() });
        lemma_with_active(bx, by, TabView { cx: 0, cy: 0, offset: 0, ..t }, TabView { cx: 0, cy: 0, offset: 0, ..u });
        lemma_with_status(
            bx.with_active(TabView { cx: 0, cy: 0, offset: 0, ..t }),
            by.with_active(TabView { cx: 0, cy: 0, offset: 0, ..u }),
            msg,
        );
    } else {
        let cx = create_buffer_spec(x, Some(name), text);
        let cy = create_buffer_spec(y, Some(name), text);
        lemma_create_buffer(x, y, Some(name), text);
        let tx = TabView { prev_view: Some((t.buffer_id, t.cx, t.cy, t.offset)), buffer_id: x.next_buf_id, cx: 0, cy: 0, offset: 0, ..t };
        let ty = TabView { prev_view: Some((u.buffer_id, u.cx, u.cy, u.offset)), buffer_id: y.next_buf_id, cx: 0, cy: 0, offset: 0, ..u };
        lemma_with_active(cx, cy, tx, ty);
        lemma_with_status(cx.with_active(tx), cy.with_active(ty), msg);
    }
}

proof fn lemma_kill_buffer(x: AppView, y: AppView, bid: usize)
    requires
        alike(x, y),
        x.active_tab < x.tabs.len(),
    ensures
        alike(kill_buffer_spec(x, bid), kill_buffer_spec(y, bid)),
{
    if !x.has_buffer(bid) {
        lemma_with_status(x, y, crate::model::no_buffer_msg(bid));
    } else if x.buffers.len() <= 1 {
        lemma_with_status(x, y, "Can't kill last buffer"@);
    } else {
        let a = kill_buffer_spec(x, bid);
        let b = kill_buffer_spec(y, bid);
        let rest = x.buffers.remove(bid);
        let fb = crate::model::first_id_from(rest, 0, x.next_buf_id as int) as usize;
        assert forall|i: int| 0 <= i < a.tabs.len() implies #[trigger] without_line(a.tabs[i]) == without_line(b.tabs[i]) by {
            assert(without_line(x.tabs[i]) == without_line(y.tabs[i]));
            assert(a.tabs[i] == retarget_tab(x.tabs[i], bid, fb));
            assert(b.tabs[i] == retarget_tab(y.tabs[i], bid, fb));
        }
    }
}

proof fn lemma_with_id(x: AppView, y: AppView, arg: Seq<char>, kill: bool)
    requires
        alike(x, y),
        x.active_tab < x.tabs.len(),
    ensures
        alike(with_id_spec(x, arg, kill), with_id_spec(y, arg, kill)),
{
    lemma_alike_active(x, y);
    match crate::strutil::parse_usize_seq(trim_seq(arg)) {
        Some(id) => {
            if kill {
                lemma_kill_buffer(x, y, id);
            } else if x.has_buffer(id) {
                lemma_with_active(
                    x,
                    y,
                    TabView { buffer_id: id, cx: 0, cy: 0, offset: 0, ..x.active() },
                    TabView { buffer_id: id, cx: 0, cy: 0, offset: 0, ..y.active() },
                );
            } else {
                lemma_with_status(x, y, crate::model::no_buffer_msg(id));
            }
        },
        None => lemma_with_status(x, y, "Invalid buffer id: "@ + arg),
    }
}


/// The short forms the help text lists beside the long forms: `s` is a short form and
/// `l` the long form it stands for (with the same argument, where there is one).
pub open spec fn short_form_of(s: Seq<char>, l: Seq<char>) -> bool {
    ||| s == "fw"@ && l == "w"@
    ||| s == "fq"@ && l == "q"@
    ||| s == "fq!"@ && l == "q!"@
    ||| s == "fx"@ && l == "wq"@
    ||| s == "bk"@ && l == "kb"@
    ||| s == "bl"@ && l == "ls"@
    ||| s == "tnew"@ && l == "tabnew"@
    ||| s == "tnext"@ && l == "tabnext"@
    ||| s == "tprev"@ && l == "tabprev"@
    ||| s == "tclose"@ && l == "tabclose"@
    ||| exists|n: Seq<char>| s == "fw "@ + n && l == "w "@ + n
    ||| exists|n: Seq<char>| s == "bk "@ + n && l == "kb "@ + n
    ||| exists|n: Seq<char>| s == "tnew "@ + n && l == "tabnew "@ + n
}

/// `tclose` reads as `tabclose` does.
proof fn lemma_parse_tclose()
    ensures
        parse_cmd("tclose"@) == Cmd::TabClose && parse_cmd("tabclose"@) == Cmd::TabClose,
{
    reveal_strlit("q");
    reveal_strlit("q!");
    reveal_strlit("fq");
    reveal_strlit("fq!");
    reveal_strlit("w");
    reveal_strlit("fw");
    reveal_strlit("wq");
    reveal_strlit("x");
    reveal_strlit("fx");
    reveal_strlit("help");
    reveal_strlit("tabnew");
    reveal_strlit("tnew");
    reveal_strlit("tabnext");
    reveal_strlit("gt");
    reveal_strlit("tnext");
    reveal_strlit("tabprev");
    reveal_strlit("gT");
    reveal_strlit("tprev");
    reveal_strlit("tabclose");
    reveal_strlit("tclose");
    lemma_ne_at("tclose"@, "tabnew"@, 1);
    assert("tabclose"@ != "q"@);
    assert("tabclose"@ != "q!"@);
    assert("tabclose"@ != "fq"@);
    assert("tabclose"@ != "fq!"@);
    assert("tabclose"@ != "w"@);
    assert("tabclose"@ != "fw"@);
    assert("tabclose"@ != "wq"@);
    assert("tabclose"@ != "x"@);
    assert("tabclose"@ != "fx"@);
    assert("tabclose"@ != "help"@);
    assert("tabclose"@ != "tabnew"@);
    assert("tabclose"@ != "tnew"@);
    assert("tabclose"@ != "tabnext"@);
    assert("tabclose"@ != "gt"@);
    assert("tabclose"@ != "tnext"@);
    assert("tabclose"@ != "tabprev"@);
    assert("tabclose"@ != "gT"@);
    assert("tabclose"@ != "tprev"@);
    assert(parse_cmd("tabclose"@) == Cmd::TabClose);
    assert(parse_cmd("tclose"@) == Cmd::TabClose);
}

/// Two strings that differ at `i` differ.
proof fn lemma_ne_at(a: Seq<char>, b: Seq<char>, i: int)
    requires
        0 <= i < a.len(),
        i < b.len(),
        a[i] != b[i],
    ensures
        a != b,
{
}

/// The short forms read as the same command as their long forms.
#[verifier::spinoff_prover]
#[verifier::rlimit(40)]
proof fn lemma_parse_short_words()
    ensures
        parse_cmd("fw"@) == Cmd::Write && parse_cmd("w"@) == Cmd::Write,
        parse_cmd("fq"@) == Cmd::Quit && parse_cmd("q"@) == Cmd::Quit,
        parse_cmd("fq!"@) == Cmd::Quit && parse_cmd("q!"@) == Cmd::Quit,
        parse_cmd("fx"@) == Cmd::WriteClose && parse_cmd("wq"@) == Cmd::WriteClose,
        parse_cmd("bk"@) == Cmd::KillCurrent && parse_cmd("kb"@) == Cmd::KillCurrent,
        parse_cmd("bl"@) == Cmd::List && parse_cmd("ls"@) == Cmd::List,
        parse_cmd("tnew"@) == Cmd::TabNew && parse_cmd("tabnew"@) == Cmd::TabNew,
        parse_cmd("tnext"@) == Cmd::TabNext && parse_cmd("tabnext"@) == Cmd::TabNext,
        parse_cmd("tprev"@) == Cmd::TabPrev && parse_cmd("tabprev"@) == Cmd::TabPrev,
{
    reveal_strlit("q");
    reveal_strlit("q!");
    reveal_strlit("fq");
    reveal_strlit("fq!");
    reveal_strlit("w");
    reveal_strlit("fw");
    reveal_strlit("wq");
    reveal_strlit("x");
    reveal_strlit("fx");
    reveal_strlit("help");
    reveal_strlit("tabnew");
    reveal_strlit("tnew");
    reveal_strlit("tabnext");
    reveal_strlit("gt");
    reveal_strlit("tnext");
    reveal_strlit("tabprev");
    reveal_strlit("gT");
    reveal_strlit("tprev");
    reveal_strlit("tabclose");
    reveal_strlit("tclose");
    reveal_strlit("bnew");
    reveal_strlit("kb");
    reveal_strlit("bk");
    reveal_strlit("ls");
    reveal_strlit("bl");
    lemma_ne_at("fw"@, "q!"@, 0);
    lemma_ne_at("fw"@, "fq"@, 1);
    lemma_ne_at("w"@, "q"@, 0);
    lemma_ne_at("fx"@, "q!"@, 0);
    lemma_ne_at("fx"@, "fq"@, 1);
    lemma_ne_at("fx"@, "fw"@, 1);
    lemma_ne_at("fx"@, "wq"@, 0);
    lemma_ne_at("wq"@, "q!"@, 0);
    lemma_ne_at("wq"@, "fq"@, 0);
    lemma_ne_at("wq"@, "fw"@, 0);
    lemma_ne_at("bk"@, "q!"@, 0);
    lemma_ne_at("bk"@, "fq"@, 0);
    lemma_ne_at("bk"@, "fw"@, 0);
    lemma_ne_at("bk"@, "wq"@, 0);
    lemma_ne_at("bk"@, "fx"@, 0);
    lemma_ne_at("bk"@, "gt"@, 0);
    lemma_ne_at("bk"@, "gT"@, 0);
    lemma_ne_at("bk"@, "kb"@, 0);
    lemma_ne_at("kb"@, "q!"@, 0);
    lemma_ne_at("kb"@, "fq"@, 0);
    lemma_ne_at("kb"@, "fw"@, 0);
    lemma_ne_at("kb"@, "wq"@, 0);
    lemma_ne_at("kb"@, "fx"@, 0);
    lemma_ne_at("kb"@, "gt"@, 0);
    lemma_ne_at("kb"@, "gT"@, 0);
    lemma_ne_at("bl"@, "q!"@, 0);
    lemma_ne_at("bl"@, "fq"@, 0);
    lemma_ne_at("bl"@, "fw"@, 0);
    lemma_ne_at("bl"@, "wq"@, 0);
    lemma_ne_at("bl"@, "fx"@, 0);
    lemma_ne_at("bl"@, "gt"@, 0);
    lemma_ne_at("bl"@, "gT"@, 0);
    lemma_ne_at("bl"@, "kb"@, 0);
    lemma_ne_at("bl"@, "bk"@, 1);
    lemma_ne_at("bl"@, "ls"@, 0);
    lemma_ne_at("ls"@, "q!"@, 0);
    lemma_ne_at("ls"@, "fq"@, 0);
    lemma_ne_at("ls"@, "fw"@, 0);
    lemma_ne_at("ls"@, "wq"@, 0);
    lemma_ne_at("ls"@, "fx"@, 0);
    lemma_ne_at("ls"@, "gt"@, 0);
    lemma_ne_at("ls"@, "gT"@, 0);
    lemma_ne_at("ls"@, "kb"@, 0);
    lemma_ne_at("ls"@, "bk"@, 0);
    lemma_ne_at("tnew"@, "help"@, 0);
    lemma_ne_at("tprev"@, "tnext"@, 1);
    lemma_ne_at("tabprev"@, "tabnext"@, 3);
}

/// `s` does not start with `p` when they differ at `i`.
proof fn lemma_no_prefix(s: Seq<char>, p: Seq<char>, i: int)
    requires
        0 <= i < p.len(),
        i < s.len(),
        s[i] != p[i],
    ensures
        strip_prefix_seq(s, p) is None,
{
    if p.len() <= s.len() && s.take(p.len() as int) == p {
        assert(s.take(p.len() as int)[i] == s[i]);
    }
}

/// `p + n` starts with `p`, and `n` follows it.
proof fn lemma_prefix(p: Seq<char>, n: Seq<char>)
    ensures
        strip_prefix_seq(p + n, p) == Some(n),
{
    assert((p + n).take(p.len() as int) =~= p);
    assert((p + n).skip(p.len() as int) =~= n);
}

/// A line with a space at `k` (one of the places where the words below have none) is
/// none of the words the parser knows.
proof fn lemma_not_a_word(c: Seq<char>, k: int)
    requires
        1 <= k < c.len(),
        k != 3,
        c[k] == ' ',
    ensures
        c != "q"@ && c != "q!"@ && c != "fq"@ && c != "fq!"@ && c != "w"@ && c != "fw"@,
        c != "wq"@ && c != "x"@ && c != "fx"@ && c != "help"@ && c != "tabnew"@ && c != "tnew"@,
        c != "tabnext"@ && c != "gt"@ && c != "tnext"@ && c != "tabprev"@ && c != "gT"@,
        c != "tprev"@ && c != "tabclose"@ && c != "tclose"@ && c != "bnew"@ && c != "kb"@,
        c != "bk"@ && c != "ls"@ && c != "bl"@,
        c != "set cursorline"@ && c != "set nocursorline"@,
{
    reveal_strlit("set cursorline");
    reveal_strlit("set nocursorline");
    reveal_strlit("q");
    reveal_strlit("q!");
    reveal_strlit("fq");
    reveal_strlit("fq!");
    reveal_strlit("w");
    reveal_strlit("fw");
    reveal_strlit("wq");
    reveal_strlit("x");
    reveal_strlit("fx");
    reveal_strlit("help");
    reveal_strlit("tabnew");
    reveal_strlit("tnew");
    reveal_strlit("tabnext");
    reveal_strlit("gt");
    reveal_strlit("tnext");
    reveal_strlit("tabprev");
    reveal_strlit("gT");
    reveal_strlit("tprev");
    reveal_strlit("tabclose");
    reveal_strlit("tclose");
    reveal_strlit("bnew");
    reveal_strlit("kb");
    reveal_strlit("bk");
    reveal_strlit("ls");
    reveal_strlit("bl");
}

/// Two command lines that name the same known command have the same effect: the same
/// request goes out, and the editors that result differ at most in what their tabs hold
/// as command line and as last command.
#[verifier::spinoff_prover]
#[verifier::rlimit(50)]
pub proof fn lemma_same_command_same_effect(v: AppView, a: Seq<char>, b: Seq<char>)
    requires
        v.wf(),
        v.active_ok(),
        parse_cmd(trim_seq(a)) == parse_cmd(trim_seq(b)),
        parse_cmd(trim_seq(a)) != Cmd::Unknown,
    ensures
        exec_command_spec(with_command_line(v, a)).1 == exec_command_spec(with_command_line(v, b)).1,
        alike(exec_command_spec(with_command_line(v, a)).0, exec_command_spec(with_command_line(v, b)).0),
{
    let va = with_command_line(v, a);
    let vb = with_command_line(v, b);
    let x = va.with_active(TabView { last_command: trim_seq(a), ..va.active() });
    let y = vb.with_active(TabView { last_command: trim_seq(b), ..vb.active() });
    assert(alike(v, v));
    lemma_with_active(v, v, va.active(), vb.active());
    lemma_with_active(va, vb, x.active(), y.active());
    assert(alike(x, y));
    lemma_alike_active(x, y);
    let t = va.active();
    match parse_cmd(trim_seq(a)) {
        Cmd::Quit => {
            lemma_quit(x, y);
            lemma_clear_cmd(quit_spec(x), quit_spec(y));
        },
        Cmd::Write => lemma_save_start(x, y, false),
        Cmd::WriteClose => lemma_save_start(x, y, true),
        Cmd::Help => {
            lemma_temp_view(x, y, "[Help]"@, crate::help::HELP_TEXT@, "Press :q to close help"@);
            lemma_clear_cmd(crate::command::open_help_spec(x), crate::command::open_help_spec(y));
        },
        Cmd::TabNew => {
            lemma_create_buffer(x, y, None, Seq::empty());
            lemma_clear_cmd(new_tab_spec(x, None, Seq::empty()), new_tab_spec(y, None, Seq::empty()));
        },
        Cmd::TabNext => {
            lemma_clear_cmd(crate::model::next_tab_spec(x), crate::model::next_tab_spec(y));
        },
        Cmd::TabPrev => {
            lemma_clear_cmd(crate::model::prev_tab_spec(x), crate::model::prev_tab_spec(y));
        },
        Cmd::TabClose => {
            lemma_close_tab(x, y);
            lemma_clear_cmd(close_tab_spec(x), close_tab_spec(y));
        },
        Cmd::BufNew => {
            lemma_create_buffer(x, y, None, Seq::empty());
            let cx = create_buffer_spec(x, None, Seq::empty());
            let cy = create_buffer_spec(y, None, Seq::empty());
            lemma_alike_active(cx, cy);
            lemma_with_active(
                cx,
                cy,
                TabView { buffer_id: x.next_buf_id, cx: 0, cy: 0, offset: 0, ..cx.active() },
                TabView { buffer_id: y.next_buf_id, cx: 0, cy: 0, offset: 0, ..cy.active() },
            );
            lemma_clear_cmd(bufnew_spec(x), bufnew_spec(y));
        },
        Cmd::KillCurrent => {
            lemma_kill_buffer(x, y, t.buffer_id);
            lemma_clear_cmd(kill_buffer_spec(x, t.buffer_id), kill_buffer_spec(y, t.buffer_id));
        },
        Cmd::List => {
            lemma_temp_view(x, y, "[Buffers]"@, buffer_list_spec(x), "Press :q to close | :buffer <id> to switch"@);
            lemma_clear_cmd(crate::command::show_list_spec(x), crate::command::show_list_spec(y));
        },
        Cmd::CursorLine(on) => {
            lemma_with_active(x, y, TabView { cursorline: on, ..x.active() }, TabView { cursorline: on, ..y.active() });
            lemma_clear_cmd(
                x.with_active(TabView { cursorline: on, ..x.active() }),
                y.with_active(TabView { cursorline: on, ..y.active() }),
            );
        },
        Cmd::WriteAs(name) => {
            lemma_with_buffer(x, y, t.buffer_id, BufferView { filename: Some(name), ..x.active_buffer() });
            lemma_save_start(rename_spec(x, name), rename_spec(y, name), false);
        },
        Cmd::TabNewFile(_) => {},
        Cmd::Edit(_) => {},
        Cmd::SwitchTo(arg) => {
            lemma_with_id(x, y, arg, false);
            lemma_clear_cmd(with_id_spec(x, arg, false), with_id_spec(y, arg, false));
        },
        Cmd::KillId(arg) => {
            lemma_with_id(x, y, arg, true);
            lemma_clear_cmd(with_id_spec(x, arg, true), with_id_spec(y, arg, true));
        },
        Cmd::Unknown => {},
    }
}

/// `fw <name>` and `w <name>` both save under `<name>`; `bk <id>` and `kb <id>` both kill
/// the buffer given by `<id>`; `tnew <file>` and `tabnew <file>` both open `<file>` in a
/// new tab.
proof fn lemma_parse_short_with_argument(n: Seq<char>)
    ensures
        parse_cmd("fw "@ + n) == Cmd::WriteAs(n) && parse_cmd("w "@ + n) == Cmd::WriteAs(n),
        parse_cmd("bk "@ + n) == Cmd::KillId(n) && parse_cmd("kb "@ + n) == Cmd::KillId(n),
        parse_cmd("tnew "@ + n) == Cmd::TabNewFile(n) && parse_cmd("tabnew "@ + n) == Cmd::TabNewFile(n),
{
    reveal_strlit("w ");
    reveal_strlit("fw ");
    reveal_strlit("tabnew ");
    reveal_strlit("tnew ");
    reveal_strlit("e ");
    reveal_strlit("buffer ");
    reveal_strlit("kb ");
    reveal_strlit("bk ");
    let c1 = "w "@ + n;
    assert(c1[1] == ' ');
    lemma_not_a_word(c1, 1);
    lemma_prefix("w "@, n);
    let c2 = "fw "@ + n;
    assert(c2[0] == 'f' && c2[2] == ' ');
    lemma_not_a_word(c2, 2);
    lemma_no_prefix(c2, "w "@, 0);
    lemma_prefix("fw "@, n);
    let c3 = "kb "@ + n;
    assert(c3[0] == 'k' && c3[2] == ' ');
    lemma_not_a_word(c3, 2);
    lemma_no_prefix(c3, "w "@, 0);
    lemma_no_prefix(c3, "fw "@, 0);
    lemma_no_prefix(c3, "tabnew "@, 0);
    lemma_no_prefix(c3, "tnew "@, 0);
    lemma_no_prefix(c3, "e "@, 0);
    lemma_no_prefix(c3, "buffer "@, 0);
    lemma_prefix("kb "@, n);
    let c4 = "bk "@ + n;
    assert(c4[0] == 'b' && c4[1] == 'k' && c4[2] == ' ');
    lemma_not_a_word(c4, 2);
    lemma_no_prefix(c4, "w "@, 0);
    lemma_no_prefix(c4, "fw "@, 0);
    lemma_no_prefix(c4, "tabnew "@, 0);
    lemma_no_prefix(c4, "tnew "@, 0);
    lemma_no_prefix(c4, "e "@, 0);
    lemma_no_prefix(c4, "buffer "@, 1);
    lemma_no_prefix(c4, "kb "@, 0);
    lemma_prefix("bk "@, n);
    let c5 = "tabnew "@ + n;
    assert(c5[0] == 't' && c5[6] == ' ');
    lemma_not_a_word(c5, 6);
    lemma_no_prefix(c5, "w "@, 0);
    lemma_no_prefix(c5, "fw "@, 0);
    lemma_prefix("tabnew "@, n);
    let c6 = "tnew "@ + n;
    assert(c6[0] == 't' && c6[1] == 'n' && c6[4] == ' ');
    lemma_not_a_word(c6, 4);
    lemma_no_prefix(c6, "w "@, 0);
    lemma_no_prefix(c6, "fw "@, 0);
    lemma_no_prefix(c6, "tabnew "@, 1);
    lemma_prefix("tnew "@, n);
}

/// Each short form listed in the help text does what its long form does: the same
/// request goes out, and the editors that result differ at most in what their tabs hold
/// as command line and as last command (the last command is the line as typed).
pub proof fn lemma_short_form_as_long_form(v: AppView, a: Seq<char>, b: Seq<char>)
    requires
        v.wf(),
        v.active_ok(),
        short_form_of(trim_seq(a), trim_seq(b)),
    ensures
        exec_command_spec(with_command_line(v, a)).1 == exec_command_spec(with_command_line(v, b)).1,
        alike(exec_command_spec(with_command_line(v, a)).0, exec_command_spec(with_command_line(v, b)).0),
{
    lemma_parse_short_words();
    lemma_parse_tclose();
    let s = trim_seq(a);
    let l = trim_seq(b);
    if exists|n: Seq<char>| s == "fw "@ + n && l == "w "@ + n {
        let n = choose|n: Seq<char>| s == "fw "@ + n && l == "w "@ + n;
        lemma_parse_short_with_argument(n);
    } else if exists|n: Seq<char>| s == "bk "@ + n && l == "kb "@ + n {
        let n = choose|n: Seq<char>| s == "bk "@ + n && l == "kb "@ + n;
        lemma_parse_short_with_argument(n);
    } else if exists|n: Seq<char>| s == "tnew "@ + n && l == "tabnew "@ + n {
        let n = choose|n: Seq<char>| s == "tnew "@ + n && l == "tabnew "@ + n;
        lemma_parse_short_with_argument(n);
    }
    lemma_same_command_same_effect(v, a, b);
}

} // verus!
