//! Command mode: editing the command line, and what each command does.
use vstd::prelude::*;
use crate::mode::{Mode, KeyCode, Event, OpenTarget, Request, RequestView};
use crate::model::{AppView, BufferView, TabView, create_buffer_spec, new_tab_spec, close_tab_spec,
    next_tab_spec, prev_tab_spec, switch_buffer_spec, kill_buffer_spec};
use crate::editor::{App, Buffer};
use crate::cmdline::{Cmd, Command, parse_cmd, parse_command};
use crate::strutil::{trim_seq, trim, parse_usize_seq, parse_usize, str_to_string, string_push, string_pop};
use crate::listing::buffer_list_spec;
use crate::help::HELP_TEXT;
use crate::rope::rope_from_str;
use crate::keys::{set_mode, normal_spec, insert_spec, visual_spec};

verus! {

/// A write's outcome as a value: the error message where it failed.
pub open spec fn outcome_view(o: Result<(), String>) -> Result<(), Seq<char>> {
    match o {
        Ok(_) => Ok(()),
        Err(e) => Err(e@),
    }
}

/// What saving does to a buffer, given how writing its file went, and the message.
pub open spec fn save_spec(b: BufferView, outcome: Result<(), Seq<char>>) -> (BufferView, Seq<char>) {
    match b.filename {
        Some(f) => match outcome {
            Ok(_) => (BufferView { dirty: false, ..b }, "\""@ + f + "\" written"@),
            Err(e) => (b, "Error: "@ + e),
        },
        None => (b, "No filename"@),
    }
}

impl Buffer {
    /// Records how writing the buffer's file went (`outcome`) and gives the message to
    /// show: a successful write leaves the buffer clean; a buffer without a file name
    /// is not written at all.
    pub fn save(&mut self, outcome: Result<(), String>) -> (msg: String)
        ensures
            (final(self)@, msg@) == save_spec(old(self)@, outcome_view(outcome)),
            final(self).rope == old(self).rope,
    {
        match &self.filename {
            Some(f) => match outcome {
                Ok(_) => {
                    self.dirty = false;
                    let mut m = str_to_string("\"");
                    m.append(f.as_str());
                    m.append("\" written");
                    m
                },
                Err(e) => {
                    let mut m = str_to_string("Error: ");
                    m.append(e.as_str());
                    m
                },
            },
            None => str_to_string("No filename"),
        }
    }
}

/// The active tab's command line emptied.
pub open spec fn clear_cmd(v: AppView) -> AppView {
    v.with_active(TabView { command_buf: Seq::empty(), ..v.active() })
}

/// The buffer numbered `id` removed, if there is one.
pub open spec fn remove_buffer_spec(v: AppView, id: usize) -> AppView {
    AppView { buffers: v.buffers.remove(id), ..v }
}

/// `q`: a temporary view goes back to the view it replaced, and its buffer goes away;
/// otherwise the tab closes.
pub open spec fn quit_spec(v: AppView) -> AppView {
    let t = v.active();
    match t.prev_view {
        Some(p) => remove_buffer_spec(
            v.with_active(
                TabView { buffer_id: p.0, cx: p.1, cy: p.2, offset: p.3, prev_view: None, status_msg: Seq::empty(), ..t },
            ),
            t.buffer_id,
        ),
        None => close_tab_spec(v),
    }
}

/// A temporary view named `name` showing `text`, with status `msg`. Inside a temporary
/// view its buffer is reused; otherwise a new buffer is made and the current view is
/// kept for `q` to return to.
pub open spec fn temp_view_spec(v: AppView, name: Seq<char>, text: Seq<char>, msg: Seq<char>) -> AppView {
    let t = v.active();
    let w = if t.prev_view is Some {
        v.with_buffer(t.buffer_id, BufferView { text, filename: Some(name), ..v.active_buffer() }).with_active(
            TabView { cx: 0, cy: 0, offset: 0, ..t },
        )
    } else {
        create_buffer_spec(v, Some(name), text).with_active(
            TabView {
                prev_view: Some((t.buffer_id, t.cx, t.cy, t.offset)),
                buffer_id: v.next_buf_id,
                cx: 0,
                cy: 0,
                offset: 0,
                ..t
            },
        )
    };
    w.with_status(msg)
}

/// `help`.
pub open spec fn open_help_spec(v: AppView) -> AppView {
    temp_view_spec(v, "[Help]"@, HELP_TEXT@, "Press :q to close help"@)
}

/// `ls`.
pub open spec fn show_list_spec(v: AppView) -> AppView {
    temp_view_spec(v, "[Buffers]"@, buffer_list_spec(v), "Press :q to close | :buffer <id> to switch"@)
}

/// A new empty buffer shown in the active tab from its top left.
pub open spec fn bufnew_spec(v: AppView) -> AppView {
    let w = create_buffer_spec(v, None, Seq::empty());
    w.with_active(TabView { buffer_id: v.next_buf_id, cx: 0, cy: 0, offset: 0, ..w.active() })
}

/// The active buffer given the file name `name`.
pub open spec fn rename_spec(v: AppView, name: Seq<char>) -> AppView {
    v.with_buffer(v.active().buffer_id, BufferView { filename: Some(name), ..v.active_buffer() })
}

/// Closing the tab after a save, if asked.
pub open spec fn close_if(v: AppView, close: bool) -> AppView {
    if close {
        close_tab_spec(v)
    } else {
        v
    }
}

/// Starting a save: a buffer with a file name asks for its text to be written; one
/// without gets the message at once.
pub open spec fn save_start_spec(v: AppView, close_after: bool) -> (AppView, RequestView) {
    let b = v.active_buffer();
    match b.filename {
        Some(f) => (v, RequestView::Write { path: f, text: b.text, close_after }),
        None => (clear_cmd(close_if(v.with_status("No filename"@), close_after)), RequestView::Done),
    }
}

/// `buffer <id>` and `kb <id>`: the number after the command, or a complaint.
pub open spec fn with_id_spec(v: AppView, arg: Seq<char>, kill: bool) -> AppView {
    match parse_usize_seq(trim_seq(arg)) {
        Some(id) => if kill {
            kill_buffer_spec(v, id)
        } else {
            switch_buffer_spec(v, id)
        },
        None => v.with_status("Invalid buffer id: "@ + arg),
    }
}

/// Running the command line of the active tab: what becomes of the editor, and what
/// (if anything) must be read or written before the command can finish.
pub open spec fn exec_command_spec(v: AppView) -> (AppView, RequestView) {
    let t = v.active();
    let c = trim_seq(t.command_buf);
    let v1 = v.with_active(TabView { last_command: c, ..t });
    match parse_cmd(c) {
        Cmd::Quit => (clear_cmd(quit_spec(v1)), RequestView::Done),
        Cmd::Write => save_start_spec(v1, false),
        Cmd::WriteClose => save_start_spec(v1, true),
        Cmd::Help => (clear_cmd(open_help_spec(v1)), RequestView::Done),
        Cmd::TabNew => (clear_cmd(new_tab_spec(v1, None, Seq::empty())), RequestView::Done),
        Cmd::TabNext => (clear_cmd(next_tab_spec(v1)), RequestView::Done),
        Cmd::TabPrev => (clear_cmd(prev_tab_spec(v1)), RequestView::Done),
        Cmd::TabClose => (clear_cmd(close_tab_spec(v1)), RequestView::Done),
        Cmd::BufNew => (clear_cmd(bufnew_spec(v1)), RequestView::Done),
        Cmd::KillCurrent => (clear_cmd(kill_buffer_spec(v1, t.buffer_id)), RequestView::Done),
        Cmd::List => (clear_cmd(show_list_spec(v1)), RequestView::Done),
        Cmd::CursorLine(on) => (clear_cmd(v1.with_active(TabView { cursorline: on, ..v1.active() })), RequestView::Done),
        Cmd::WriteAs(name) => save_start_spec(rename_spec(v1, name), false),
        Cmd::TabNewFile(name) => (v1, RequestView::Read { path: name, target: OpenTarget::NewTab }),
        Cmd::Edit(name) => (v1, RequestView::Read { path: name, target: OpenTarget::CurrentTab }),
        Cmd::SwitchTo(arg) => (clear_cmd(with_id_spec(v1, arg, false)), RequestView::Done),
        Cmd::KillId(arg) => (clear_cmd(with_id_spec(v1, arg, true)), RequestView::Done),
        Cmd::Unknown => (clear_cmd(v1.with_status("Unknown command: "@ + c)), RequestView::Done),
    }
}

/// Finishing a save once the write went as `outcome` says.
pub open spec fn finish_save_spec(v: AppView, close_after: bool, outcome: Result<(), Seq<char>>) -> AppView {
    let r = save_spec(v.active_buffer(), outcome);
    let w = v.with_buffer(v.active().buffer_id, r.0).with_status(r.1);
    set_mode(clear_cmd(close_if(w, close_after)), Mode::Normal)
}

/// Finishing `e <file>` or `tabnew <file>` once the file was read as `contents`.
pub open spec fn finish_open_spec(v: AppView, target: OpenTarget, path: Seq<char>, contents: Seq<char>) -> AppView {
    let w = match target {
        OpenTarget::CurrentTab => {
            let w1 = create_buffer_spec(v, Some(path), contents);
            w1.with_active(TabView { buffer_id: v.next_buf_id, cx: 0, cy: 0, offset: 0, ..w1.active() })
        },
        OpenTarget::NewTab => new_tab_spec(v, Some(path), contents),
    };
    set_mode(clear_cmd(w), Mode::Normal)
}

/// A key in command mode.
pub open spec fn command_key_spec(v: AppView, code: KeyCode) -> (AppView, RequestView) {
    let t = v.active();
    match code {
        KeyCode::Esc => (v.with_active(TabView { mode: Mode::Normal, command_buf: Seq::empty(), ..t }), RequestView::Done),
        KeyCode::Enter => {
            let r = exec_command_spec(v);
            if r.1 is Done {
                (set_mode(r.0, Mode::Normal), RequestView::Done)
            } else {
                r
            }
        },
        KeyCode::Backspace => (
            v.with_active(
                TabView {
                    command_buf: if t.command_buf.len() > 0 {
                        t.command_buf.drop_last()
                    } else {
                        t.command_buf
                    },
                    ..t
                },
            ),
            RequestView::Done,
        ),
        KeyCode::Char(c) => (v.with_active(TabView { command_buf: t.command_buf.push(c), ..t }), RequestView::Done),
        _ => (v, RequestView::Done),
    }
}

impl App {
    /// Empties the active tab's command line.
    fn clear_command(&mut self)
        requires
            old(self)@.wf(),
        ensures
            final(self)@ == clear_cmd(old(self)@),
            final(self)@.wf(),
    {
        let a = self.active_tab;
        self.tabs[a].command_buf = String::new();
        assert(self@.tabs =~= clear_cmd(old(self)@).tabs);
    }

    /// Removes the buffer numbered `id`, if there is one.
    fn remove_buffer(&mut self, id: usize)
        requires
            old(self)@.wf(),
        ensures
            final(self)@ == remove_buffer_spec(old(self)@, id),
            final(self)@.wf(),
    {
        self.buffers.remove(&id);
        assert(self@.buffers =~= old(self)@.buffers.remove(id));
    }

    /// `q`: back from a temporary view (dropping its buffer), else closes the tab.
    fn quit_view(&mut self)
        requires
            old(self)@.wf(),
        ensures
            final(self)@ == quit_spec(old(self)@),
            final(self)@.wf(),
    {
        let a = self.active_tab;
        match self.tabs[a].prev_view {
            Some(p) => {
                let temp_bid = self.tabs[a].buffer_id;
                self.tabs[a].buffer_id = p.0;
                self.tabs[a].cx = p.1;
                self.tabs[a].cy = p.2;
                self.tabs[a].offset = p.3;
                self.tabs[a].prev_view = None;
                self.tabs[a].status_msg = String::new();
                let ghost t = old(self)@.active();
                assert(self@ =~= old(self)@.with_active(
                    TabView { buffer_id: p.0, cx: p.1, cy: p.2, offset: p.3, prev_view: None, status_msg: Seq::empty(), ..t },
                ));
                self.remove_buffer(temp_bid);
            },
            None => self.close_tab(),
        }
    }

    /// A temporary view named `name` showing `text`, with status message `msg`.
    fn temp_view(&mut self, name: &str, text: &str, msg: &str)
        requires
            old(self)@.wf(),
            old(self)@.active_ok(),
            old(self)@.active().prev_view is None ==> old(self).next_buf_id < usize::MAX,
        ensures
            final(self)@ == temp_view_spec(old(self)@, name@, text@, msg@),
            final(self)@.wf(),
    {
        let a = self.active_tab;
        if self.tabs[a].prev_view.is_some() {
            let b = self.buf_mut();
            b.rope = rope_from_str(text);
            b.filename = Some(str_to_string(name));
            self.tabs[a].cx = 0;
            self.tabs[a].cy = 0;
            self.tabs[a].offset = 0;
        } else {
            let bid = self.create_buffer(Some(str_to_string(name)), text);
            let prev = (self.tabs[a].buffer_id, self.tabs[a].cx, self.tabs[a].cy, self.tabs[a].offset);
            self.tabs[a].prev_view = Some(prev);
            self.tabs[a].buffer_id = bid;
            self.tabs[a].cx = 0;
            self.tabs[a].cy = 0;
            self.tabs[a].offset = 0;
        }
        self.tabs[a].status_msg = str_to_string(msg);
        assert(self@.tabs =~= temp_view_spec(old(self)@, name@, text@, msg@).tabs);
        assert(self@.buffers =~= temp_view_spec(old(self)@, name@, text@, msg@).buffers);
    }

    /// `help`: the help page in a temporary view.
    pub fn open_help(&mut self)
        requires
            old(self)@.wf(),
            old(self)@.active_ok(),
            old(self)@.active().prev_view is None ==> old(self).next_buf_id < usize::MAX,
        ensures
            final(self)@ == open_help_spec(old(self)@),
            final(self)@.wf(),
    {
        self.temp_view("[Help]", HELP_TEXT, "Press :q to close help");
    }

    /// `ls`: the buffer list in a temporary view.
    fn show_list(&mut self)
        requires
            old(self)@.wf(),
            old(self)@.active_ok(),
            old(self)@.active().prev_view is None ==> old(self).next_buf_id < usize::MAX,
        ensures
            final(self)@ == show_list_spec(old(self)@),
            final(self)@.wf(),
    {
        let list = self.buffer_list();
        self.temp_view("[Buffers]", list.as_str(), "Press :q to close | :buffer <id> to switch");
    }

    /// `bnew`: a new empty buffer in the active tab.
    fn buffer_new(&mut self)
        requires
            old(self)@.wf(),
            old(self).next_buf_id < usize::MAX,
        ensures
            final(self)@ == bufnew_spec(old(self)@),
            final(self)@.wf(),
    {
        let bid = self.create_buffer(None, "");
        proof {
            reveal_strlit("");
            assert(""@ =~= Seq::<char>::empty());
        }
        let a = self.active_tab;
        self.tabs[a].buffer_id = bid;
        self.tabs[a].cx = 0;
        self.tabs[a].cy = 0;
        self.tabs[a].offset = 0;
        assert(self@.tabs =~= bufnew_spec(old(self)@).tabs);
        assert(self@.buffers =~= bufnew_spec(old(self)@).buffers);
    }

    /// Starts saving the active buffer (see `save_start_spec`).
    fn save_start(&mut self, close_after: bool) -> (r: Request)
        requires
            old(self)@.wf(),
            old(self)@.active_ok(),
        ensures
            (final(self)@, r@) == save_start_spec(old(self)@, close_after),
            final(self)@.wf(),
    {
        let b = self.buf();
        match &b.filename {
            Some(f) => {
                let path = f.clone();
                let text = crate::rope::rope_to_string(&b.rope);
                Request::Write { path, text, close_after }
            },
            None => {
                self.set_status(str_to_string("No filename"));
                if close_after {
                    self.close_tab();
                }
                self.clear_command();
                Request::Done
            },
        }
    }

    /// `w <name>`: the active buffer takes the file name `name`.
    fn rename(&mut self, name: String)
        requires
            old(self)@.wf(),
            old(self)@.active_ok(),
        ensures
            final(self)@ == rename_spec(old(self)@, name@),
            final(self)@.wf(),
            final(self)@.active_ok(),
    {
        self.buf_mut().filename = Some(name);
        assert(self@.buffers =~= rename_spec(old(self)@, name@).buffers);
    }

    /// `buffer <id>` (switch) and `kb <id>` (kill).
    fn with_id(&mut self, arg: String, kill: bool)
        requires
            old(self)@.wf(),
        ensures
            final(self)@ == with_id_spec(old(self)@, arg@, kill),
            final(self)@.wf(),
    {
        match parse_usize(trim(arg.as_str())) {
            Some(id) => if kill {
                self.kill_buffer(id)
            } else {
                self.switch_buffer(id)
            },
            None => {
                let mut m = str_to_string("Invalid buffer id: ");
                m.append(arg.as_str());
                self.set_status(m);
            },
        }
    }

    /// Runs the command line of the active tab. Commands that need a file read or
    /// written stop there and say so; the rest finish here.
    pub fn exec_command(&mut self) -> (r: Request)
        requires
            old(self)@.wf(),
            old(self)@.active_ok(),
            makes_buffer(old(self)@) ==> old(self).next_buf_id < usize::MAX,
        ensures
            (final(self)@, r@) == exec_command_spec(old(self)@),
            final(self)@.wf(),
    {
        let a = self.active_tab;
        let c = str_to_string(trim(self.tabs[a].command_buf.as_str()));
        let bid = self.tabs[a].buffer_id;
        self.tabs[a].last_command = c.clone();
        let ghost v1 = old(self)@.with_active(TabView { last_command: c@, ..old(self)@.active() });
        assert(self@ =~= v1);
        let cmd = parse_command(c.as_str());
        match cmd {
            Command::Quit => self.quit_view(),
            Command::Write => {
                return self.save_start(false);
            },
            Command::WriteClose => {
                return self.save_start(true);
            },
            Command::Help => self.open_help(),
            Command::TabNew => {
                self.new_tab(None, "");
                proof {
                    reveal_strlit("");
                    assert(""@ =~= Seq::<char>::empty());
                }
            },
            Command::TabNext => self.next_tab(),
            Command::TabPrev => self.prev_tab(),
            Command::TabClose => self.close_tab(),
            Command::BufNew => self.buffer_new(),
            Command::KillCurrent => self.kill_buffer(bid),
            Command::List => self.show_list(),
            Command::CursorLine(on) => {
                self.tabs[a].cursorline = on;
                assert(self@.tabs =~= v1.with_active(TabView { cursorline: on, ..v1.active() }).tabs);
            },
            Command::WriteAs(name) => {
                self.rename(name);
                return self.save_start(false);
            },
            Command::TabNewFile(name) => {
                return Request::Read { path: name, target: OpenTarget::NewTab };
            },
            Command::Edit(name) => {
                return Request::Read { path: name, target: OpenTarget::CurrentTab };
            },
            Command::SwitchTo(arg) => self.with_id(arg, false),
            Command::KillId(arg) => self.with_id(arg, true),
            Command::Unknown => {
                let mut m = str_to_string("Unknown command: ");
                m.append(c.as_str());
                self.set_status(m);
            },
        }
        self.clear_command();
        Request::Done
    }

    /// Finishes a save once the write went as `outcome` says (`Ok` also for a buffer
    /// without a file name, which nothing was written for): the message, the tab
    /// closed if asked, the command line emptied, back in normal mode.
    pub fn finish_save(&mut self, close_after: bool, outcome: Result<(), String>)
        requires
            old(self)@.wf(),
            old(self)@.active_ok(),
        ensures
            final(self)@ == finish_save_spec(old(self)@, close_after, outcome_view(outcome)),
            final(self)@.wf(),
    {
        let msg = self.buf_mut().save(outcome);
        let ghost r = save_spec(old(self)@.active_buffer(), outcome_view(outcome));
        assert(self@ =~= old(self)@.with_buffer(old(self)@.active().buffer_id, r.0));
        self.set_status(msg);
        if close_after {
            self.close_tab();
        }
        self.clear_command();
        let a2 = self.active_tab;
        self.tabs[a2].mode = Mode::Normal;
        assert(self@ =~= finish_save_spec(old(self)@, close_after, outcome_view(outcome)));
    }

    /// Finishes `e <file>` (`CurrentTab`) or `tabnew <file>` (`NewTab`) once the file at
    /// `path` was read as `contents` (empty when it could not be read).
    pub fn finish_open(&mut self, target: OpenTarget, path: String, contents: &str)
        requires
            old(self)@.wf(),
            old(self).next_buf_id < usize::MAX,
        ensures
            final(self)@ == finish_open_spec(old(self)@, target, path@, contents@),
            final(self)@.wf(),
    {
        let ghost p = path@;
        match target {
            OpenTarget::CurrentTab => {
                let bid = self.create_buffer(Some(path), contents);
                let a = self.active_tab;
                self.tabs[a].buffer_id = bid;
                self.tabs[a].cx = 0;
                self.tabs[a].cy = 0;
                self.tabs[a].offset = 0;
                let ghost w1 = create_buffer_spec(old(self)@, Some(p), contents@);
                assert(self@.tabs =~= w1.with_active(
                    TabView { buffer_id: old(self)@.next_buf_id, cx: 0, cy: 0, offset: 0, ..w1.active() },
                ).tabs);
            },
            OpenTarget::NewTab => self.new_tab(Some(path), contents),
        }
        let ghost w = self@;
        self.clear_command();
        let a2 = self.active_tab;
        self.tabs[a2].mode = Mode::Normal;
        assert(self@ =~= set_mode(clear_cmd(w), Mode::Normal));
    }

    /// A key event in command mode: typing and deleting on the command line, Esc to
    /// leave, Enter to run it (then back in normal mode, unless a file must be read or
    /// written first).
    pub fn handle_command(&mut self, ev: Event) -> (r: Request)
        requires
            old(self)@.wf(),
            old(self)@.active_ok(),
            (ev matches Event::Key(k) && k.code == KeyCode::Enter && makes_buffer(old(self)@)) ==> old(self).next_buf_id
                < usize::MAX,
        ensures
            (final(self)@, r@) == (match ev {
                Event::Key(k) => command_key_spec(old(self)@, k.code),
                Event::Other => (old(self)@, RequestView::Done),
            }),
            final(self)@.wf(),
    {
        if let Event::Key(k) = ev {
            let a = self.active_tab;
            match k.code {
                KeyCode::Esc => {
                    self.tabs[a].mode = Mode::Normal;
                    self.tabs[a].command_buf = String::new();
                    assert(self@.tabs =~= command_key_spec(old(self)@, k.code).0.tabs);
                },
                KeyCode::Enter => {
                    let r = self.exec_command();
                    match r {
                        Request::Done => {
                            let a2 = self.active_tab;
                            let ghost w = self@;
                            self.tabs[a2].mode = Mode::Normal;
                            assert(self@ =~= set_mode(w, Mode::Normal));
                            return Request::Done;
                        },
                        _ => {
                            return r;
                        },
                    }
                },
                KeyCode::Backspace => {
                    string_pop(&mut self.tabs[a].command_buf);
                    assert(self@.tabs =~= command_key_spec(old(self)@, k.code).0.tabs);
                },
                KeyCode::Char(c) => {
                    string_push(&mut self.tabs[a].command_buf, c);
                    assert(self@.tabs =~= command_key_spec(old(self)@, k.code).0.tabs);
                },
                _ => {},
            }
        }
        Request::Done
    }

    /// Whether `needs_new_number` holds: what to check before handing `ev` over.
    pub fn event_makes_buffer(&self, ev: &Event) -> (r: bool)
        requires
            self@.wf(),
        ensures
            r == needs_new_number(self@, *ev),
    {
        let t = &self.tabs[self.active_tab];
        if t.mode != Mode::Command {
            return false;
        }
        match ev {
            Event::Key(k) => if k.code != KeyCode::Enter {
                return false;
            },
            Event::Other => {
                return false;
            },
        }
        match parse_command(trim(t.command_buf.as_str())) {
            Command::Help | Command::List => t.prev_view.is_none(),
            Command::TabNew | Command::BufNew => true,
            _ => false,
        }
    }

    /// What a key event does, by the mode of the active tab. The request says what
    /// must be read or written to finish it (see `finish_open` and `finish_save`).
    pub fn handle_event(&mut self, ev: Event) -> (r: Request)
        requires
            old(self)@.wf(),
            old(self)@.active_ok(),
            needs_room(old(self)@, ev) ==> old(self)@.active().cx < usize::MAX,
            needs_new_number(old(self)@, ev) ==> old(self).next_buf_id < usize::MAX,
        ensures
            (final(self)@, r@) == handle_event_spec(old(self)@, ev),
            final(self)@.wf(),
    {
        let mode = self.tabs[self.active_tab].mode;
        match mode {
            Mode::Normal => {
                self.handle_normal(ev);
                Request::Done
            },
            Mode::Insert => {
                self.handle_insert(ev);
                Request::Done
            },
            Mode::Visual => {
                self.handle_visual(ev);
                Request::Done
            },
            Mode::Command => self.handle_command(ev),
        }
    }
}

/// Whether running the active command line makes a new buffer: `help` and `ls` (and
/// their aliases) outside a temporary view, `tabnew` and `bnew`.
pub open spec fn makes_buffer(v: AppView) -> bool {
    match parse_cmd(trim_seq(v.active().command_buf)) {
        Cmd::Help | Cmd::List => v.active().prev_view is None,
        Cmd::TabNew | Cmd::BufNew => true,
        _ => false,
    }
}

/// Whether `ev` makes a new buffer: Enter on a command line that makes one.
pub open spec fn needs_new_number(v: AppView, ev: Event) -> bool {
    &&& v.active().mode == Mode::Command
    &&& ev matches Event::Key(k) && k.code == KeyCode::Enter
    &&& makes_buffer(v)
}

/// Whether `ev` moves the cursor one column on without a bound: `a` in normal mode.
pub open spec fn needs_room(v: AppView, ev: Event) -> bool {
    &&& v.active().mode == Mode::Normal
    &&& ev matches Event::Key(k) && k.code == KeyCode::Char('a')
}

/// What an event does to the editor, and what it asks to be read or written.
pub open spec fn handle_event_spec(v: AppView, ev: Event) -> (AppView, RequestView) {
    match ev {
        Event::Key(k) => match v.active().mode {
            Mode::Normal => (normal_spec(v, k.code), RequestView::Done),
            Mode::Insert => (insert_spec(v, k), RequestView::Done),
            Mode::Visual => (visual_spec(v, k.code), RequestView::Done),
            Mode::Command => command_key_spec(v, k.code),
        },
        Event::Other => (v, RequestView::Done),
    }
}

} // verus!
