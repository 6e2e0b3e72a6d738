//! The mathematical model of the editor: buffers, tabs and the editor state as plain
//! values, and the operations of the editor as functions on them.
use vstd::prelude::*;
use crate::mode::Mode;
use crate::text::{num_lines, line_len};
use crate::strutil::dec_str;

verus! {

/// A buffer as a value: number, text, file name, unsaved changes, crashed.
#[verifier::ext_equal]
pub struct BufferView {
    pub id: usize,
    pub text: Seq<char>,
    pub filename: Option<Seq<char>>,
    pub dirty: bool,
    pub crashed: bool,
}

/// A tab as a value.
#[verifier::ext_equal]
pub struct TabView {
    pub buffer_id: usize,
    pub cx: usize,
    pub cy: usize,
    pub offset: usize,
    pub mode: Mode,
    pub command_buf: Seq<char>,
    pub status_msg: Seq<char>,
    pub last_command: Seq<char>,
    pub cursorline: bool,
    pub visual_anchor: (usize, usize),
    pub pending_op: Option<char>,
    pub prev_view: Option<(usize, usize, usize, usize)>,
}

/// The editor as a value. The buffers are keyed by their numbers.
#[verifier::ext_equal]
pub struct AppView {
    pub buffers: Map<usize, BufferView>,
    pub tabs: Seq<TabView>,
    pub active_tab: usize,
    pub next_buf_id: usize,
    pub quit: bool,
}

/// `a - b`, or 0 when `b > a`.
pub open spec fn sat_sub(a: usize, b: usize) -> usize {
    if a >= b {
        (a - b) as usize
    } else {
        0
    }
}

/// A fresh tab on buffer `bid`.
pub open spec fn fresh_tab(bid: usize) -> TabView {
    TabView {
        buffer_id: bid,
        cx: 0,
        cy: 0,
        offset: 0,
        mode: Mode::Normal,
        command_buf: Seq::empty(),
        status_msg: Seq::empty(),
        last_command: Seq::empty(),
        cursorline: false,
        visual_anchor: (0, 0),
        pending_op: None,
        prev_view: None,
    }
}

/// The name a buffer is shown under.
pub open spec fn shown_name(filename: Option<Seq<char>>) -> Seq<char> {
    match filename {
        Some(f) => f,
        None => "[No Name]"@,
    }
}

impl AppView {
    /// What every operation keeps: at least one tab (no more than a `usize` counts), a
    /// valid active tab, finitely many buffers, each stored under its own number, and
    /// every number below the next one to be handed out.
    pub open spec fn wf(self) -> bool {
        &&& self.tabs.len() > 0
        &&& self.tabs.len() <= usize::MAX
        &&& self.active_tab < self.tabs.len()
        &&& self.buffers.dom().finite()
        &&& forall|id: usize| #[trigger] self.buffers.contains_key(id) ==> self.buffers[id].id == id && id < self.next_buf_id
    }

    /// Whether a buffer numbered `id` exists.
    pub open spec fn has_buffer(self, id: usize) -> bool {
        self.buffers.contains_key(id)
    }

    /// The active tab.
    pub open spec fn active(self) -> TabView {
        self.tabs[self.active_tab as int]
    }

    /// The active tab shows a buffer that exists.
    pub open spec fn active_ok(self) -> bool {
        self.has_buffer(self.active().buffer_id)
    }

    /// The buffer of the active tab.
    pub open spec fn active_buffer(self) -> BufferView {
        self.buffers[self.active().buffer_id]
    }

    /// The text of the active tab's buffer.
    pub open spec fn active_text(self) -> Seq<char> {
        self.active_buffer().text
    }

    /// The editor with the active tab replaced by `t`.
    pub open spec fn with_active(self, t: TabView) -> AppView {
        AppView { tabs: self.tabs.update(self.active_tab as int, t), ..self }
    }

    /// The editor with the buffer numbered `id` replaced by `b`.
    pub open spec fn with_buffer(self, id: usize, b: BufferView) -> AppView {
        AppView { buffers: self.buffers.insert(id, b), ..self }
    }

    /// The active tab with its status message set to `msg`.
    pub open spec fn with_status(self, msg: Seq<char>) -> AppView {
        self.with_active(TabView { status_msg: msg, ..self.active() })
    }
}

/// The editor with one more buffer: number `next_buf_id`, holding `contents`, clean.
pub open spec fn create_buffer_spec(v: AppView, filename: Option<Seq<char>>, contents: Seq<char>) -> AppView {
    AppView {
        buffers: v.buffers.insert(
            v.next_buf_id,
            BufferView { id: v.next_buf_id, text: contents, filename, dirty: false, crashed: false },
        ),
        next_buf_id: (v.next_buf_id + 1) as usize,
        ..v
    }
}

/// The editor at start: buffer 0 holding `contents`, shown in the only tab.
pub open spec fn initial_spec(filename: Option<Seq<char>>, contents: Seq<char>) -> AppView {
    AppView {
        buffers: Map::empty().insert(0, BufferView { id: 0, text: contents, filename, dirty: false, crashed: false }),
        tabs: seq![fresh_tab(0)],
        active_tab: 0,
        next_buf_id: 1,
        quit: false,
    }
}

/// A new tab showing a new buffer that holds `contents`; the new tab becomes active.
pub open spec fn new_tab_spec(v: AppView, filename: Option<Seq<char>>, contents: Seq<char>) -> AppView {
    let v1 = create_buffer_spec(v, filename, contents);
    AppView {
        tabs: v1.tabs.push(fresh_tab(v.next_buf_id)),
        active_tab: v1.tabs.len() as usize,
        ..v1
    }
}

/// Closing the active tab; closing the last one quits instead.
pub open spec fn close_tab_spec(v: AppView) -> AppView {
    if v.tabs.len() <= 1 {
        AppView { quit: true, ..v }
    } else {
        let tabs = v.tabs.remove(v.active_tab as int);
        AppView {
            tabs,
            active_tab: if v.active_tab >= tabs.len() {
                (tabs.len() - 1) as usize
            } else {
                v.active_tab
            },
            ..v
        }
    }
}

/// The next tab becomes active, the first after the last.
pub open spec fn next_tab_spec(v: AppView) -> AppView {
    AppView { active_tab: ((v.active_tab + 1) % (v.tabs.len() as int)) as usize, ..v }
}

/// The previous tab becomes active, the last before the first.
pub open spec fn prev_tab_spec(v: AppView) -> AppView {
    AppView {
        active_tab: if v.active_tab == 0 {
            (v.tabs.len() - 1) as usize
        } else {
            (v.active_tab - 1) as usize
        },
        ..v
    }
}

/// The status message for a buffer number that does not exist.
pub open spec fn no_buffer_msg(bid: usize) -> Seq<char> {
    "No buffer "@ + dec_str(bid as nat)
}

/// The active tab shows buffer `bid` from its top left, if that buffer exists.
pub open spec fn switch_buffer_spec(v: AppView, bid: usize) -> AppView {
    if v.has_buffer(bid) {
        v.with_active(TabView { buffer_id: bid, cx: 0, cy: 0, offset: 0, ..v.active() })
    } else {
        v.with_status(no_buffer_msg(bid))
    }
}

/// A tab after buffer `bid` was killed: a tab that showed it now shows `fallback`.
pub open spec fn retarget_tab(t: TabView, bid: usize, fallback: usize) -> TabView {
    if t.buffer_id == bid {
        TabView {
            buffer_id: fallback,
            cx: 0,
            cy: 0,
            offset: 0,
            prev_view: None,
            status_msg: "Buffer "@ + dec_str(bid as nat) + " killed"@,
            ..t
        }
    } else {
        t
    }
}

/// The smallest number from `i` up to (not including) `n` under which `m` holds a
/// buffer; `n` when there is none.
pub open spec fn first_id_from(m: Map<usize, BufferView>, i: int, n: int) -> int
    decreases n - i,
{
    if i >= n {
        n
    } else if m.contains_key(i as usize) {
        i
    } else {
        first_id_from(m, i + 1, n)
    }
}

/// Removing buffer `bid`. It must exist and not be the last buffer; the tabs that
/// showed it show the buffer with the smallest remaining number.
pub open spec fn kill_buffer_spec(v: AppView, bid: usize) -> AppView {
    if !v.has_buffer(bid) {
        v.with_status(no_buffer_msg(bid))
    } else if v.buffers.len() <= 1 {
        v.with_status("Can't kill last buffer"@)
    } else {
        let rest = v.buffers.remove(bid);
        let fallback = first_id_from(rest, 0, v.next_buf_id as int) as usize;
        AppView {
            buffers: rest,
            tabs: v.tabs.map_values(|t: TabView| retarget_tab(t, bid, fallback)),
            ..v
        }
    }
}

/// Below `n`, the first buffer number from `i` on is a number of a buffer, when there is
/// one at or after `i`.
pub proof fn lemma_first_id(m: Map<usize, BufferView>, i: int, n: int, k: usize)
    requires
        0 <= i <= k < n,
        m.contains_key(k),
    ensures
        i <= first_id_from(m, i, n) <= k,
        m.contains_key(first_id_from(m, i, n) as usize),
        forall|j: usize| i <= j < first_id_from(m, i, n) ==> !#[trigger] m.contains_key(j),
    decreases n - i,
{
    if !m.contains_key(i as usize) {
        lemma_first_id(m, i + 1, n, k);
    }
}

/// The cursor moved into the text: onto an existing line, and onto a character of
/// it (in insert mode also just past its end).
pub open spec fn clamp_spec(v: AppView) -> AppView {
    let t = v.active();
    let text = v.active_text();
    let cy = if t.cy > num_lines(text) - 1 {
        (num_lines(text) - 1) as usize
    } else {
        t.cy
    };
    let ll = line_len(text, cy as int) as usize;
    let max_x = if t.mode == Mode::Insert {
        ll
    } else {
        sat_sub(ll, 1)
    };
    let cx = if t.cx > max_x {
        max_x
    } else {
        t.cx
    };
    v.with_active(TabView { cx, cy, ..t })
}

} // verus!
