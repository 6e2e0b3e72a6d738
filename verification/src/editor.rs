//! Buffers (shared text), tabs (views into buffers) and the editor state that holds them.
use vstd::prelude::*;
use ropey::Rope;
use crate::mode::Mode;
use crate::rope::{rope_text, rope_from_str, rope_len_lines, line_visible_len};
use crate::text::lemma_line_start;
use crate::text::{num_lines, line_len};
use crate::model::{BufferView, TabView, AppView, create_buffer_spec, initial_spec, fresh_tab, sat_sub,
    new_tab_spec, close_tab_spec, next_tab_spec, prev_tab_spec, switch_buffer_spec, kill_buffer_spec,
    retarget_tab, no_buffer_msg, clamp_spec, shown_name, first_id_from, lemma_first_id};
use crate::strutil::{str_to_string, push_usize, dec_str};
use crate::highlight::{default_syntaxes, default_themes, Syntaxes, Themes};
use std::collections::HashMap;

verus! {

broadcast use vstd::std_specs::hash::group_hash_axioms;

/// Buffers are told apart by their number.
pub type BufferId = usize;

/// The text of a file (or of a scratch view), shared by the tabs that show it.
pub struct Buffer {
    pub id: BufferId,
    pub rope: Rope,
    pub filename: Option<String>,
    pub dirty: bool,
    pub crashed: bool,
}

impl View for Buffer {
    type V = BufferView;

    open spec fn view(&self) -> BufferView {
        BufferView {
            id: self.id,
            text: rope_text(self.rope),
            filename: self.filename.deep_view(),
            dirty: self.dirty,
            crashed: self.crashed,
        }
    }
}

impl Buffer {
    /// The characters of the buffer.
    pub open spec fn text(&self) -> Seq<char> {
        rope_text(self.rope)
    }

    /// A clean buffer numbered `id` that holds `contents`.
    pub fn new(id: BufferId, filename: Option<String>, contents: &str) -> (b: Buffer)
        ensures
            b.id == id,
            b.text() == contents@,
            b.filename == filename,
            !b.dirty,
            !b.crashed,
    {
        Buffer { id, rope: rope_from_str(contents), filename, dirty: false, crashed: false }
    }

    /// The name the buffer is shown under.
    pub fn name(&self) -> (r: &str)
        ensures
            r@ == shown_name(self@.filename),
    {
        match &self.filename {
            Some(f) => f.as_str(),
            None => "[No Name]",
        }
    }
}

/// A view into a buffer: cursor, scroll position, mode and command line.
pub struct Tab {
    pub buffer_id: BufferId,
    pub cx: usize,
    pub cy: usize,
    pub offset: usize,
    pub mode: Mode,
    pub command_buf: String,
    pub status_msg: String,
    pub last_command: String,
    pub cursorline: bool,
    pub visual_anchor: (usize, usize),
    pub pending_op: Option<char>,
    /// The view to go back to when a temporary view (help, buffer list) is closed:
    /// buffer, cursor column, cursor line, scroll offset.
    pub prev_view: Option<(BufferId, usize, usize, usize)>,
}

impl View for Tab {
    type V = TabView;

    open spec fn view(&self) -> TabView {
        TabView {
            buffer_id: self.buffer_id,
            cx: self.cx,
            cy: self.cy,
            offset: self.offset,
            mode: self.mode,
            command_buf: self.command_buf@,
            status_msg: self.status_msg@,
            last_command: self.last_command@,
            cursorline: self.cursorline,
            visual_anchor: self.visual_anchor,
            pending_op: self.pending_op,
            prev_view: self.prev_view,
        }
    }
}

impl Tab {
    /// A fresh tab on buffer `buffer_id`, in normal mode at the top left.
    pub fn new(buffer_id: BufferId) -> (t: Tab)
        ensures
            t@ == fresh_tab(buffer_id),
    {
        Tab {
            buffer_id,
            cx: 0,
            cy: 0,
            offset: 0,
            mode: Mode::Normal,
            command_buf: String::new(),
            status_msg: String::new(),
            last_command: String::new(),
            cursorline: false,
            visual_anchor: (0, 0),
            pending_op: None,
            prev_view: None,
        }
    }
}

/// The whole editor: buffers, tabs, which tab is active.
pub struct App {
    /// The buffers, keyed by their numbers.
    pub buffers: HashMap<BufferId, Buffer>,
    pub tabs: Vec<Tab>,
    pub active_tab: usize,
    pub next_buf_id: BufferId,
    /// The syntaxes and the colour themes that text is highlighted with.
    pub ss: Syntaxes,
    pub ts: Themes,
    pub quit: bool,
}

impl View for App {
    type V = AppView;

    open spec fn view(&self) -> AppView {
        AppView {
            buffers: self.buffers@.map_values(|b: Buffer| b@),
            tabs: self.tabs@.map_values(|t: Tab| t@),
            active_tab: self.active_tab,
            next_buf_id: self.next_buf_id,
            quit: self.quit,
        }
    }
}

/// `HashMap::get_mut`: the buffer stored under `id`, to change in place; afterwards the
/// map holds the changed buffer under `id` and is otherwise as it was. `None` when no
/// buffer is stored under `id`.
#[verifier::external_body]
fn buffer_get_mut(m: &mut HashMap<BufferId, Buffer>, id: BufferId) -> (r: Option<&mut Buffer>)
    ensures
        match r {
            Some(b) => old(m)@.contains_key(id) && *b == old(m)@[id] && final(m)@ == old(m)@.insert(id, *final(b)),
            None => !old(m)@.contains_key(id) && final(m)@ == old(m)@,
        },
{
    m.get_mut(&id)
}

impl App {
    /// The editor at start: one buffer (number 0) holding `contents`, shown in one tab.
    pub fn new(filename: Option<String>, contents: &str) -> (app: App)
        ensures
            app@ == initial_spec(filename.deep_view(), contents@),
            app@.wf(),
    {
        let mut app = App {
            buffers: HashMap::new(),
            tabs: Vec::new(),
            active_tab: 0,
            next_buf_id: 0,
            ss: default_syntaxes(),
            ts: default_themes(),
            quit: false,
        };
        let bid = app.create_buffer(filename, contents);
        app.tabs.push(Tab::new(bid));
        assert(app@.buffers =~= initial_spec(filename.deep_view(), contents@).buffers);
        assert(app@.tabs =~= initial_spec(filename.deep_view(), contents@).tabs);
        app
    }

    /// Adds a clean buffer holding `contents` under the next free number, and returns that number.
    pub fn create_buffer(&mut self, filename: Option<String>, contents: &str) -> (id: BufferId)
        requires
            old(self).next_buf_id < usize::MAX,
        ensures
            id == old(self).next_buf_id,
            final(self)@ == create_buffer_spec(old(self)@, filename.deep_view(), contents@),
            old(self)@.wf() ==> final(self)@.wf(),
    {
        let id = self.next_buf_id;
        self.next_buf_id = self.next_buf_id + 1;
        self.buffers.insert(id, Buffer::new(id, filename, contents));
        assert(self@.buffers =~= create_buffer_spec(old(self)@, filename.deep_view(), contents@).buffers);
        id
    }

    /// The active tab.
    pub fn tab(&self) -> (t: &Tab)
        requires
            self@.wf(),
        ensures
            t@ == self@.active(),
    {
        &self.tabs[self.active_tab]
    }

    /// The active tab, to change it.
    pub fn tab_mut(&mut self) -> (t: &mut Tab)
        requires
            old(self)@.wf(),
        ensures
            t@ == old(self)@.active(),
            final(self)@ == old(self)@.with_active(final(t)@),
    {
        let a = self.active_tab;
        let t = &mut self.tabs[a];
        t
    }

    /// The buffer of the active tab. The tab must show a buffer that exists.
    pub fn buf(&self) -> (b: &Buffer)
        requires
            self@.wf(),
            self@.active_ok(),
        ensures
            b@ == self@.active_buffer(),
    {
        self.buffers.get(&self.tabs[self.active_tab].buffer_id).unwrap()
    }

    /// The number of lines of the active buffer (at least one).
    pub fn line_count(&self) -> (n: usize)
        requires
            self@.wf(),
            self@.active_ok(),
        ensures
            n == num_lines(self@.active_text()),
    {
        rope_len_lines(&self.buf().rope)
    }
}

/// The screen rows left for text: the terminal height less the tab bar, the status
/// line and the command line, and in command mode also less the palette.
pub open spec fn rows_spec(v: AppView, height: u16) -> usize {
    let base = (height - 3) as usize;
    if v.active().mode == Mode::Command {
        sat_sub(base, 7)
    } else {
        base
    }
}

/// The length of the cursor's line (without a final LF); 0 past the last line.
pub open spec fn cur_line_len(v: AppView) -> usize {
    if v.active().cy < num_lines(v.active_text()) {
        line_len(v.active_text(), v.active().cy as int) as usize
    } else {
        0
    }
}

impl App {
    /// The rows that the command palette takes below the command line.
    pub fn palette_rows(&self) -> (n: usize)
        ensures
            n == 7,
    {
        7
    }

    /// The screen rows for text in a terminal `height` rows high (at least 3).
    pub fn rows(&self, height: u16) -> (n: usize)
        requires
            self@.wf(),
            height >= 3,
        ensures
            n == rows_spec(self@, height),
    {
        let base = height as usize - 3;
        if self.tab().mode == Mode::Command {
            base.saturating_sub(self.palette_rows())
        } else {
            base
        }
    }

    /// The screen columns in a terminal `width` columns wide.
    pub fn cols(&self, width: u16) -> (n: usize)
        ensures
            n == width as usize,
    {
        width as usize
    }

    /// The length of the cursor's line (without a final LF); 0 past the last line.
    pub fn current_line_len(&self) -> (n: usize)
        requires
            self@.wf(),
            self@.active_ok(),
        ensures
            n == cur_line_len(self@),
    {
        let b = self.buf();
        let t = self.tab();
        if t.cy < rope_len_lines(&b.rope) {
            line_visible_len(&b.rope, t.cy)
        } else {
            0
        }
    }

    /// The buffer of the active tab, to change it. The tab must show a buffer that exists.
    pub fn buf_mut(&mut self) -> (b: &mut Buffer)
        requires
            old(self)@.wf(),
            old(self)@.active_ok(),
        ensures
            b@ == old(self)@.active_buffer(),
            final(self)@ == old(self)@.with_buffer(old(self)@.active().buffer_id, final(b)@),
    {
        let bid = self.tabs[self.active_tab].buffer_id;
        buffer_get_mut(&mut self.buffers, bid).unwrap()
    }

    /// Opens a new tab on a new buffer holding `contents`, and makes it active.
    pub fn new_tab(&mut self, filename: Option<String>, contents: &str)
        requires
            old(self)@.wf(),
            old(self).next_buf_id < usize::MAX,
        ensures
            final(self)@ == new_tab_spec(old(self)@, filename.deep_view(), contents@),
            final(self)@.wf(),
    {
        let bid = self.create_buffer(filename, contents);
        self.tabs.push(Tab::new(bid));
        self.active_tab = self.tabs.len() - 1;
        assert(self@.tabs =~= new_tab_spec(old(self)@, filename.deep_view(), contents@).tabs);
    }

    /// Closes the active tab; with one tab left, sets `quit` instead.
    pub fn close_tab(&mut self)
        requires
            old(self)@.wf(),
        ensures
            final(self)@ == close_tab_spec(old(self)@),
            final(self)@.wf(),
    {
        if self.tabs.len() <= 1 {
            self.quit = true;
            return;
        }
        self.tabs.remove(self.active_tab);
        if self.active_tab >= self.tabs.len() {
            self.active_tab = self.tabs.len() - 1;
        }
        assert(self@.tabs =~= close_tab_spec(old(self)@).tabs);
    }

    /// Makes the next tab active (the first after the last).
    pub fn next_tab(&mut self)
        requires
            old(self)@.wf(),
        ensures
            final(self)@ == next_tab_spec(old(self)@),
            final(self)@.wf(),
    {
        let n = self.tabs.len();
        self.active_tab = (self.active_tab + 1) % n;
    }

    /// Makes the previous tab active (the last before the first).
    pub fn prev_tab(&mut self)
        requires
            old(self)@.wf(),
        ensures
            final(self)@ == prev_tab_spec(old(self)@),
            final(self)@.wf(),
    {
        self.active_tab = if self.active_tab == 0 {
            self.tabs.len() - 1
        } else {
            self.active_tab - 1
        };
    }

    /// Sets the status message of the active tab.
    pub(crate) fn set_status(&mut self, msg: String)
        requires
            old(self)@.wf(),
        ensures
            final(self)@ == old(self)@.with_status(msg@),
            final(self)@.wf(),
    {
        let a = self.active_tab;
        self.tabs[a].status_msg = msg;
        assert(self@.tabs =~= old(self)@.with_status(msg@).tabs);
    }

    /// Shows buffer `bid` in the active tab from its top left, or says that it does not exist.
    pub fn switch_buffer(&mut self, bid: BufferId)
        requires
            old(self)@.wf(),
        ensures
            final(self)@ == switch_buffer_spec(old(self)@, bid),
            final(self)@.wf(),
    {
        let a = self.active_tab;
        if self.buffers.contains_key(&bid) {
            self.tabs[a].buffer_id = bid;
            self.tabs[a].cx = 0;
            self.tabs[a].cy = 0;
            self.tabs[a].offset = 0;
            assert(self@.tabs =~= switch_buffer_spec(old(self)@, bid).tabs);
        } else {
            let mut msg = str_to_string("No buffer ");
            push_usize(&mut msg, bid);
            self.set_status(msg);
        }
    }

    /// Removes buffer `bid`; tabs that showed it show the buffer with the smallest
    /// remaining number. Refuses an unknown number and the last buffer.
    pub fn kill_buffer(&mut self, bid: BufferId)
        requires
            old(self)@.wf(),
        ensures
            final(self)@ == kill_buffer_spec(old(self)@, bid),
            final(self)@.wf(),
    {
        assert(self@.buffers.dom() =~= self.buffers@.dom());
        if !self.buffers.contains_key(&bid) {
            let mut msg = str_to_string("No buffer ");
            push_usize(&mut msg, bid);
            self.set_status(msg);
            return;
        }
        if self.buffers.len() <= 1 {
            self.set_status(str_to_string("Can't kill last buffer"));
            return;
        }
        let ghost before = old(self)@.buffers;
        self.buffers.remove(&bid);
        let ghost rest = before.remove(bid);
        assert(self@.buffers =~= rest);
        proof {
            // Another buffer remains, below the next number.
            assert(before.dom().len() > 1);
            let other = choose|k: usize| before.dom().contains(k) && k != bid;
            assert(before.dom().contains(other) && other != bid) by {
                if forall|k: usize| before.dom().contains(k) ==> k == bid {
                    assert(before.dom() =~= set![bid]);
                    assert(set![bid].len() == 1);
                }
            }
            lemma_first_id(rest, 0, self.next_buf_id as int, other);
        }
        let mut fallback: usize = 0;
        while !self.buffers.contains_key(&fallback)
            invariant
                self@.buffers == rest,
                self.next_buf_id == old(self).next_buf_id,
                fallback <= first_id_from(rest, 0, self.next_buf_id as int),
                first_id_from(rest, 0, self.next_buf_id as int) < self.next_buf_id,
                rest.contains_key(first_id_from(rest, 0, self.next_buf_id as int) as usize),
                forall|j: usize| j < first_id_from(rest, 0, self.next_buf_id as int) ==> !#[trigger] rest.contains_key(j),
            decreases self.next_buf_id - fallback,
        {
            fallback = fallback + 1;
        }
        assert(fallback == first_id_from(rest, 0, self.next_buf_id as int));
        let n = self.tabs.len();
        let mut j: usize = 0;
        while j < n
            invariant
                n == self.tabs@.len(),
                n == old(self)@.tabs.len(),
                j <= n,
                self@.buffers == rest,
                fallback == first_id_from(rest, 0, old(self).next_buf_id as int),
                self.active_tab == old(self).active_tab,
                self.next_buf_id == old(self).next_buf_id,
                self.quit == old(self).quit,
                forall|k: int| 0 <= k < j ==> #[trigger] self@.tabs[k] == retarget_tab(old(self)@.tabs[k], bid, fallback),
                forall|k: int| j <= k < n ==> #[trigger] self@.tabs[k] == old(self)@.tabs[k],
            decreases n - j,
        {
            let ghost tabs_before = self@.tabs;
            assert(tabs_before[j as int] == old(self)@.tabs[j as int]);
            if self.tabs[j].buffer_id == bid {
                let mut msg = str_to_string("Buffer ");
                push_usize(&mut msg, bid);
                msg.append(" killed");
                self.tabs[j].buffer_id = fallback;
                self.tabs[j].cx = 0;
                self.tabs[j].cy = 0;
                self.tabs[j].offset = 0;
                self.tabs[j].prev_view = None;
                self.tabs[j].status_msg = msg;
                assert(self@.tabs[j as int] == retarget_tab(old(self)@.tabs[j as int], bid, fallback));
            } else {
                assert(self@.tabs[j as int] == retarget_tab(old(self)@.tabs[j as int], bid, fallback));
            }
            assert(self@.tabs =~= tabs_before.update(j as int, retarget_tab(old(self)@.tabs[j as int], bid, fallback)));
            j = j + 1;
        }
        assert(self@.tabs =~= kill_buffer_spec(old(self)@, bid).tabs);
    }

    /// Moves the cursor into the text: onto an existing line and onto a character of it
    /// (in insert mode also just past the end of the line).
    pub fn clamp_cursor(&mut self)
        requires
            old(self)@.wf(),
            old(self)@.active_ok(),
        ensures
            final(self)@ == clamp_spec(old(self)@),
            final(self)@.wf(),
            final(self)@.active_ok(),
    {
        let line_count = self.line_count();
        proof { lemma_line_start(old(self)@.active_text(), 0, 0); }
        let a = self.active_tab;
        let max_y = line_count - 1;
        if self.tabs[a].cy > max_y {
            self.tabs[a].cy = max_y;
        }
        let line_len = line_visible_len(&self.buf().rope, self.tabs[a].cy);
        let max_x = if self.tabs[a].mode == Mode::Insert {
            line_len
        } else {
            line_len.saturating_sub(1)
        };
        if self.tabs[a].cx > max_x {
            self.tabs[a].cx = max_x;
        }
        assert(self@.tabs =~= clamp_spec(old(self)@).tabs);
    }
}

} // verus!
