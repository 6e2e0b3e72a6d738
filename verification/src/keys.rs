//! What a key press does in each mode.
use vstd::prelude::*;
use crate::mode::{Mode, KeyCode, KeyEvent, Event};
use crate::model::{AppView, TabView, sat_sub};
use crate::editor::{App, cur_line_len};
use crate::ops::{BufferOp, with_buffer_spec};
use crate::text::{num_lines, lemma_line_start};
use crate::strutil::str_to_string;

verus! {

/// The active tab's cursor column set to `cx`.
pub open spec fn set_cx(v: AppView, cx: usize) -> AppView {
    v.with_active(TabView { cx, ..v.active() })
}

/// The active tab's cursor line set to `cy`.
pub open spec fn set_cy(v: AppView, cy: usize) -> AppView {
    v.with_active(TabView { cy, ..v.active() })
}

/// The active tab's mode set to `m`.
pub open spec fn set_mode(v: AppView, m: Mode) -> AppView {
    v.with_active(TabView { mode: m, ..v.active() })
}

/// One column left, not past the first.
pub open spec fn move_left_spec(v: AppView) -> AppView {
    set_cx(v, sat_sub(v.active().cx, 1))
}

/// One line down, not past the last line.
pub open spec fn move_down_spec(v: AppView) -> AppView {
    if v.active().cy < num_lines(v.active_text()) - 1 {
        set_cy(v, (v.active().cy + 1) as usize)
    } else {
        v
    }
}

/// One line up, not past the first.
pub open spec fn move_up_spec(v: AppView) -> AppView {
    set_cy(v, sat_sub(v.active().cy, 1))
}

/// One column right, not past the last character of the line.
pub open spec fn move_right_spec(v: AppView) -> AppView {
    if v.active().cx < sat_sub(cur_line_len(v), 1) {
        set_cx(v, (v.active().cx + 1) as usize)
    } else {
        v
    }
}

/// To the last character of the line (`$`).
pub open spec fn line_end_spec(v: AppView) -> AppView {
    set_cx(v, sat_sub(cur_line_len(v), 1))
}

/// To the last line (`G`).
pub open spec fn last_line_spec(v: AppView) -> AppView {
    set_cy(v, sat_sub(num_lines(v.active_text()) as usize, 1))
}

/// The motions that normal and visual mode share; `None` for other keys.
pub open spec fn motion_spec(v: AppView, code: KeyCode) -> Option<AppView> {
    match code {
        KeyCode::Char(c) => if c == 'h' {
            Some(move_left_spec(v))
        } else if c == 'j' {
            Some(move_down_spec(v))
        } else if c == 'k' {
            Some(move_up_spec(v))
        } else if c == 'l' {
            Some(move_right_spec(v))
        } else if c == '0' {
            Some(set_cx(v, 0))
        } else if c == '$' {
            Some(line_end_spec(v))
        } else if c == 'G' {
            Some(last_line_spec(v))
        } else if c == 'g' {
            Some(set_cy(v, 0))
        } else {
            None
        },
        KeyCode::Left => Some(move_left_spec(v)),
        KeyCode::Down => Some(move_down_spec(v)),
        KeyCode::Up => Some(move_up_spec(v)),
        KeyCode::Right => Some(move_right_spec(v)),
        _ => None,
    }
}

/// A key in normal mode.
pub open spec fn normal_spec(v: AppView, code: KeyCode) -> AppView {
    let t = v.active();
    match motion_spec(v, code) {
        Some(w) => w,
        None => match code {
            KeyCode::Char(c) => if c == 'i' {
                set_mode(v, Mode::Insert)
            } else if c == 'a' {
                let ll = cur_line_len(v);
                v.with_active(
                    TabView { cx: if t.cx + 1 < ll { (t.cx + 1) as usize } else { ll }, mode: Mode::Insert, ..t },
                )
            } else if c == 'o' {
                with_buffer_spec(v, BufferOp::OpenBelow).0
            } else if c == 'O' {
                with_buffer_spec(v, BufferOp::OpenAbove).0
            } else if c == 'x' {
                with_buffer_spec(v, BufferOp::DeleteChar).0
            } else if c == 'd' {
                with_buffer_spec(v, BufferOp::DeleteLine).0
            } else if c == 'w' {
                with_buffer_spec(v, BufferOp::WordForward).0
            } else if c == 'b' {
                with_buffer_spec(v, BufferOp::WordBackward).0
            } else if c == ':' {
                v.with_active(TabView { mode: Mode::Command, command_buf: Seq::empty(), ..t })
            } else if c == 'v' {
                v.with_active(TabView { visual_anchor: (t.cy, t.cx), mode: Mode::Visual, ..t })
            } else {
                v
            },
            _ => v,
        },
    }
}

/// A key in insert mode.
pub open spec fn insert_spec(v: AppView, k: KeyEvent) -> AppView {
    let t = v.active();
    match k.code {
        KeyCode::Esc => v.with_active(TabView { mode: Mode::Normal, cx: sat_sub(t.cx, 1), ..t }),
        KeyCode::Char(c) => if k.ctrl {
            v
        } else {
            with_buffer_spec(v, BufferOp::InsertChar(c)).0
        },
        KeyCode::Enter => with_buffer_spec(v, BufferOp::NewLine).0,
        KeyCode::Backspace => with_buffer_spec(v, BufferOp::Backspace).0,
        KeyCode::Left => move_left_spec(v),
        KeyCode::Right => if t.cx < cur_line_len(v) {
            set_cx(v, (t.cx + 1) as usize)
        } else {
            v
        },
        KeyCode::Up => move_up_spec(v),
        KeyCode::Down => move_down_spec(v),
        _ => v,
    }
}

/// A key in visual mode.
pub open spec fn visual_spec(v: AppView, code: KeyCode) -> AppView {
    let t = v.active();
    match code {
        KeyCode::Esc => set_mode(v, Mode::Normal),
        _ => match motion_spec(v, code) {
            Some(w) => w,
            None => match code {
                KeyCode::Char(c) => if c == 'd' || c == 'x' {
                    with_buffer_spec(v, BufferOp::DeleteSelection).0
                } else if c == 'w' {
                    with_buffer_spec(v, BufferOp::WordForward).0
                } else if c == 'b' {
                    with_buffer_spec(v, BufferOp::WordBackward).0
                } else if c == 'y' {
                    v.with_active(TabView { status_msg: "yanked"@, mode: Mode::Normal, ..t })
                } else {
                    v
                },
                _ => v,
            },
        },
    }
}

impl App {
    fn move_left(&mut self)
        requires
            old(self)@.wf(),
        ensures
            final(self)@ == move_left_spec(old(self)@),
    {
        let a = self.active_tab;
        self.tabs[a].cx = self.tabs[a].cx.saturating_sub(1);
        assert(self@.tabs =~= move_left_spec(old(self)@).tabs);
    }

    fn move_down(&mut self)
        requires
            old(self)@.wf(),
            old(self)@.active_ok(),
        ensures
            final(self)@ == move_down_spec(old(self)@),
    {
        proof { lemma_line_start(old(self)@.active_text(), 0, 0); }
        let a = self.active_tab;
        if self.tabs[a].cy < self.line_count() - 1 {
            self.tabs[a].cy = self.tabs[a].cy + 1;
            assert(self@.tabs =~= move_down_spec(old(self)@).tabs);
        }
    }

    fn move_up(&mut self)
        requires
            old(self)@.wf(),
        ensures
            final(self)@ == move_up_spec(old(self)@),
    {
        let a = self.active_tab;
        self.tabs[a].cy = self.tabs[a].cy.saturating_sub(1);
        assert(self@.tabs =~= move_up_spec(old(self)@).tabs);
    }

    fn move_right(&mut self)
        requires
            old(self)@.wf(),
            old(self)@.active_ok(),
        ensures
            final(self)@ == move_right_spec(old(self)@),
    {
        let a = self.active_tab;
        if self.tabs[a].cx < self.current_line_len().saturating_sub(1) {
            self.tabs[a].cx = self.tabs[a].cx + 1;
            assert(self@.tabs =~= move_right_spec(old(self)@).tabs);
        }
    }

    fn set_col(&mut self, cx: usize)
        requires
            old(self)@.wf(),
        ensures
            final(self)@ == set_cx(old(self)@, cx),
    {
        let a = self.active_tab;
        self.tabs[a].cx = cx;
        assert(self@.tabs =~= set_cx(old(self)@, cx).tabs);
    }

    fn set_line(&mut self, cy: usize)
        requires
            old(self)@.wf(),
        ensures
            final(self)@ == set_cy(old(self)@, cy),
    {
        let a = self.active_tab;
        self.tabs[a].cy = cy;
        assert(self@.tabs =~= set_cy(old(self)@, cy).tabs);
    }

    fn set_tab_mode(&mut self, m: Mode)
        requires
            old(self)@.wf(),
        ensures
            final(self)@ == set_mode(old(self)@, m),
    {
        let a = self.active_tab;
        self.tabs[a].mode = m;
        assert(self@.tabs =~= set_mode(old(self)@, m).tabs);
    }

    /// The motions that normal and visual mode share. Returns whether `code` is one.
    fn motion(&mut self, code: KeyCode) -> (done: bool)
        requires
            old(self)@.wf(),
            old(self)@.active_ok(),
        ensures
            done == motion_spec(old(self)@, code) is Some,
            done ==> final(self)@ == motion_spec(old(self)@, code)->0,
            !done ==> final(self)@ == old(self)@,
    {
        match code {
            KeyCode::Char('h') | KeyCode::Left => self.move_left(),
            KeyCode::Char('j') | KeyCode::Down => self.move_down(),
            KeyCode::Char('k') | KeyCode::Up => self.move_up(),
            KeyCode::Char('l') | KeyCode::Right => self.move_right(),
            KeyCode::Char('0') => self.set_col(0),
            KeyCode::Char('$') => {
                let ll = self.current_line_len().saturating_sub(1);
                self.set_col(ll);
            },
            KeyCode::Char('G') => {
                let lc = self.line_count().saturating_sub(1);
                self.set_line(lc);
            },
            KeyCode::Char('g') => self.set_line(0),
            _ => {
                return false;
            },
        }
        true
    }

    /// A key event in normal mode: motions, edits, and the switches to the other modes.
    pub fn handle_normal(&mut self, ev: Event)
        requires
            old(self)@.wf(),
            old(self)@.active_ok(),
            (ev matches Event::Key(k) && k.code == KeyCode::Char('a')) ==> old(self)@.active().cx < usize::MAX,
        ensures
            final(self)@ == (match ev {
                Event::Key(k) => normal_spec(old(self)@, k.code),
                Event::Other => old(self)@,
            }),
            final(self)@.wf(),
    {
        if let Event::Key(k) = ev {
            if self.motion(k.code) {
                return;
            }
            let a = self.active_tab;
            match k.code {
                KeyCode::Char('i') => self.set_tab_mode(Mode::Insert),
                KeyCode::Char('a') => {
                    let ll = self.current_line_len();
                    let cx = self.tabs[a].cx + 1;
                    self.tabs[a].cx = if cx < ll {
                        cx
                    } else {
                        ll
                    };
                    self.tabs[a].mode = Mode::Insert;
                    assert(self@.tabs =~= normal_spec(old(self)@, k.code).tabs);
                },
                KeyCode::Char('o') => {
                    self.with_buffer(BufferOp::OpenBelow);
                },
                KeyCode::Char('O') => {
                    self.with_buffer(BufferOp::OpenAbove);
                },
                KeyCode::Char('x') => {
                    self.with_buffer(BufferOp::DeleteChar);
                },
                KeyCode::Char('d') => {
                    self.with_buffer(BufferOp::DeleteLine);
                },
                KeyCode::Char('w') => {
                    self.with_buffer(BufferOp::WordForward);
                },
                KeyCode::Char('b') => {
                    self.with_buffer(BufferOp::WordBackward);
                },
                KeyCode::Char(':') => {
                    self.tabs[a].mode = Mode::Command;
                    self.tabs[a].command_buf = String::new();
                    assert(self@.tabs =~= normal_spec(old(self)@, k.code).tabs);
                },
                KeyCode::Char('v') => {
                    self.tabs[a].visual_anchor = (self.tabs[a].cy, self.tabs[a].cx);
                    self.tabs[a].mode = Mode::Visual;
                    assert(self@.tabs =~= normal_spec(old(self)@, k.code).tabs);
                },
                _ => {},
            }
        }
    }

    /// A key event in insert mode: typing, line breaks, deletion, arrows, and Esc.
    pub fn handle_insert(&mut self, ev: Event)
        requires
            old(self)@.wf(),
            old(self)@.active_ok(),
        ensures
            final(self)@ == (match ev {
                Event::Key(k) => insert_spec(old(self)@, k),
                Event::Other => old(self)@,
            }),
            final(self)@.wf(),
    {
        if let Event::Key(k) = ev {
            let a = self.active_tab;
            match k.code {
                KeyCode::Esc => {
                    self.tabs[a].mode = Mode::Normal;
                    self.tabs[a].cx = self.tabs[a].cx.saturating_sub(1);
                    assert(self@.tabs =~= insert_spec(old(self)@, k).tabs);
                },
                KeyCode::Char(c) => {
                    if k.ctrl {
                        return;
                    }
                    self.with_buffer(BufferOp::InsertChar(c));
                },
                KeyCode::Enter => {
                    self.with_buffer(BufferOp::NewLine);
                },
                KeyCode::Backspace => {
                    self.with_buffer(BufferOp::Backspace);
                },
                KeyCode::Left => self.move_left(),
                KeyCode::Right => {
                    if self.tabs[a].cx < self.current_line_len() {
                        self.set_col(self.tabs[a].cx + 1);
                    }
                },
                KeyCode::Up => self.move_up(),
                KeyCode::Down => self.move_down(),
                _ => {},
            }
        }
    }

    /// A key event in visual mode: motions (word motions included) extend the
    /// selection; `d`/`x` delete it,
    /// `y` yanks it, Esc cancels it.
    pub fn handle_visual(&mut self, ev: Event)
        requires
            old(self)@.wf(),
            old(self)@.active_ok(),
        ensures
            final(self)@ == (match ev {
                Event::Key(k) => visual_spec(old(self)@, k.code),
                Event::Other => old(self)@,
            }),
            final(self)@.wf(),
    {
        if let Event::Key(k) = ev {
            if k.code == KeyCode::Esc {
                self.set_tab_mode(Mode::Normal);
                return;
            }
            if self.motion(k.code) {
                return;
            }
            let a = self.active_tab;
            match k.code {
                KeyCode::Char('d') | KeyCode::Char('x') => {
                    self.with_buffer(BufferOp::DeleteSelection);
                },
                KeyCode::Char('w') => {
                    self.with_buffer(BufferOp::WordForward);
                },
                KeyCode::Char('b') => {
                    self.with_buffer(BufferOp::WordBackward);
                },
                KeyCode::Char('y') => {
                    self.tabs[a].status_msg = str_to_string("yanked");
                    self.tabs[a].mode = Mode::Normal;
                    assert(self@.tabs =~= visual_spec(old(self)@, k.code).tabs);
                },
                _ => {},
            }
        }
    }
}

} // verus!
