//! Screen layout: how many screen rows a line takes when long lines wrap, where the
//! cursor lands on the screen, scrolling, the visual selection, and the status line.
use vstd::prelude::*;
use crate::mode::Mode;
use crate::model::{AppView, TabView, sat_sub, shown_name};
use crate::editor::{App, rows_spec};
use crate::text::{num_lines, line_len, line_start, lemma_line_start};
use crate::rope::{rope_len_lines, rope_len_chars, rope_line_to_char, line_visible_len};
use crate::strutil::{dec_str, spaces, str_to_string, push_usize, push_spaces, starts_with, contains_char};
use crate::commands::{begins_with, command_names, command_description, views, filter_commands, description};
use vstd::utf8::encode_utf8;
use vstd::string::StringSliceAdditionalSpecFns;

verus! {

broadcast use vstd::std_specs::hash::group_hash_axioms;

/// The screen rows that line `i` of `t` takes at `cols` columns: at least one, and one
/// per `cols` characters (without its final LF). A line past the end takes one row.
pub open spec fn wrap_height(t: Seq<char>, i: int, cols: int) -> int {
    if i >= num_lines(t) || i < 0 {
        1
    } else {
        let cc = line_len(t, i);
        if cols <= 0 || cc == 0 {
            1
        } else {
            (cc + cols - 1) / cols
        }
    }
}

/// The screen rows that lines `0..n` take together.
pub open spec fn rows_before(t: Seq<char>, n: int, cols: int) -> int
    decreases n,
{
    if n <= 0 {
        0
    } else {
        rows_before(t, n - 1, cols) + wrap_height(t, n - 1, cols)
    }
}

/// The screen row of the cursor counted from the top of the text (not of the view).
pub open spec fn cursor_row(v: AppView, cols: int) -> int {
    rows_before(v.active_text(), v.active().cy as int, cols) + if cols > 0 {
        (v.active().cx as int) / cols
    } else {
        0
    }
}

/// The scroll offset after `scroll`: the smallest change that brings the cursor's row
/// into the `rows` rows of the view.
pub open spec fn scroll_spec(v: AppView, width: u16, height: u16) -> AppView {
    let rows = rows_spec(v, height) as int;
    let r = cursor_row(v, width as int);
    let t = v.active();
    if r < t.offset {
        v.with_active(TabView { offset: r as usize, ..t })
    } else if r >= t.offset + rows {
        v.with_active(TabView { offset: (r - rows + 1) as usize, ..t })
    } else {
        v
    }
}

impl App {
    /// How many screen rows line `line_idx` of the active buffer takes at `width` columns.
    pub fn wrapped_line_height(&self, line_idx: usize, width: u16) -> (h: usize)
        requires
            self@.wf(),
            self@.active_ok(),
        ensures
            h == wrap_height(self@.active_text(), line_idx as int, width as int),
            h >= 1,
    {
        let buf = self.buf();
        if line_idx >= rope_len_lines(&buf.rope) {
            return 1;
        }
        let char_count = line_visible_len(&buf.rope, line_idx);
        let cols = self.cols(width);
        if cols == 0 {
            return 1;
        }
        if char_count == 0 {
            return 1;
        }
        let q = char_count / cols;
        proof {
            let cc = char_count as int;
            let c = cols as int;
            assert(cc == c * q + cc % c) by (nonlinear_arith)
                requires c > 0, q == cc / c;
            assert((cc + c - 1) / c == if cc % c == 0 { q as int } else { q + 1 }) by (nonlinear_arith)
                requires c > 0, cc == c * q + cc % c, 0 <= cc % c < c, cc > 0;
            assert(q >= 1 || cc % c != 0) by (nonlinear_arith)
                requires c > 0, cc == c * q + cc % c, cc > 0;
            if cc % c != 0 {
                assert(q < usize::MAX) by (nonlinear_arith)
                    requires c > 0, cc == c * q + cc % c, cc % c != 0, cc <= usize::MAX, q >= 0;
            }
        }
        let h = if char_count % cols == 0 {
            q
        } else {
            q + 1
        };
        h
    }

    /// The sum of the wrapped heights of the first `n` lines of the active buffer.
    pub(crate) fn rows_above(&self, n: usize, width: u16) -> (r: usize)
        requires
            self@.wf(),
            self@.active_ok(),
            rows_before(self@.active_text(), n as int, width as int) <= usize::MAX,
        ensures
            r == rows_before(self@.active_text(), n as int, width as int),
    {
        let ghost t = self@.active_text();
        let mut acc: usize = 0;
        let mut i: usize = 0;
        while i < n
            invariant
                i <= n,
                self@.wf(),
                self@.active_ok(),
                t == self@.active_text(),
                acc == rows_before(t, i as int, width as int),
                rows_before(t, n as int, width as int) <= usize::MAX,
            decreases n - i,
        {
            proof { lemma_rows_before_mono(t, (i + 1) as int, n as int, width as int); }
            acc = acc + self.wrapped_line_height(i, width);
            i = i + 1;
        }
        acc
    }

    /// The cursor's place in the view: (row below the top of the view, column), at
    /// `width` columns, with long lines wrapped.
    pub fn cursor_screen_pos(&self, width: u16) -> (p: (usize, usize))
        requires
            self@.wf(),
            self@.active_ok(),
            cursor_row(self@, width as int) <= usize::MAX,
        ensures
            p.0 == sat_sub(cursor_row(self@, width as int) as usize, self@.active().offset),
            p.1 == if width == 0 {
                0
            } else {
                self@.active().cx % (width as usize)
            },
    {
        let tab = self.tab();
        let cols = self.cols(width);
        let screen_col = if cols == 0 {
            0
        } else {
            tab.cx % cols
        };
        let wrap_row = if cols == 0 {
            0
        } else {
            tab.cx / cols
        };
        let screen_row = self.rows_above(tab.cy, width) + wrap_row;
        (screen_row.saturating_sub(tab.offset), screen_col)
    }

    /// Scrolls the active tab just enough that the cursor's row is in view, for a
    /// terminal `width` columns wide and `height` rows high.
    pub fn scroll(&mut self, width: u16, height: u16)
        requires
            old(self)@.wf(),
            old(self)@.active_ok(),
            height >= 3,
            cursor_row(old(self)@, width as int) < usize::MAX,
            old(self)@.active().offset + rows_spec(old(self)@, height) <= usize::MAX,
        ensures
            final(self)@ == scroll_spec(old(self)@, width, height),
            final(self)@.wf(),
            rows_spec(old(self)@, height) > 0 ==> final(self)@.active().offset <= cursor_row(old(self)@, width as int),
            rows_spec(old(self)@, height) > 0 ==> cursor_row(old(self)@, width as int) < final(self)@.active().offset
                + rows_spec(old(self)@, height),
    {
        let rows = self.rows(height);
        let cols = self.cols(width);
        let cy = self.tabs[self.active_tab].cy;
        let cx = self.tabs[self.active_tab].cx;
        let mut cursor_screen_row = self.rows_above(cy, width);
        if cols > 0 {
            cursor_screen_row = cursor_screen_row + cx / cols;
        }
        let offset = self.tabs[self.active_tab].offset;
        let a = self.active_tab;
        if cursor_screen_row < offset {
            self.tabs[a].offset = cursor_screen_row;
        }
        if cursor_screen_row >= offset + rows {
            self.tabs[a].offset = cursor_screen_row - rows + 1;
        }
        assert(self@.tabs =~= scroll_spec(old(self)@, width, height).tabs);
    }
}

pub(crate) proof fn lemma_rows_before_mono(t: Seq<char>, m: int, n: int, cols: int)
    requires
        0 <= m <= n,
    ensures
        rows_before(t, m, cols) <= rows_before(t, n, cols),
    decreases n - m,
{
    if m < n {
        lemma_rows_before_mono(t, m, n - 1, cols);
        lemma_wrap_height_pos(t, n - 1, cols);
    }
}

proof fn lemma_wrap_height_pos(t: Seq<char>, i: int, cols: int)
    ensures
        wrap_height(t, i, cols) >= 1,
{
    if 0 <= i < num_lines(t) && cols > 0 && line_len(t, i) != 0 {
        let cc = line_len(t, i);
        lemma_line_len_nonneg(t, i);
        assert((cc + cols - 1) / cols >= 1) by (nonlinear_arith)
            requires cc >= 1, cols >= 1;
    }
}

proof fn lemma_line_len_nonneg(t: Seq<char>, i: int)
    requires
        0 <= i < num_lines(t),
    ensures
        line_len(t, i) >= 0,
{
    lemma_line_start(t, i, i + 1);
}

/// Whether the character at column `col` of line `row` is selected: in visual mode,
/// the characters from the anchor to the cursor, both included (within the text).
pub open spec fn in_selection(v: AppView, row: usize, col: usize) -> bool {
    let t = v.active();
    let text = v.active_text();
    if t.mode != Mode::Visual {
        false
    } else {
        let a = line_start(text, t.visual_anchor.0 as int) + t.visual_anchor.1;
        let c = line_start(text, t.cy as int) + t.cx;
        let start = if a <= c { a } else { c };
        let far = if a <= c { c } else { a };
        let end = if far + 1 < text.len() { far + 1 } else { text.len() as int };
        let pos = line_start(text, row as int) + col;
        start <= pos < end
    }
}

/// In visual mode, the anchor and the cursor lie on lines of the text (or one past the
/// last) and their positions in the text fit in a `usize` with room to spare.
pub open spec fn selection_in_range(v: AppView) -> bool {
    v.active().mode == Mode::Visual ==> {
        let text = v.active_text();
        let t = v.active();
        &&& t.visual_anchor.0 <= num_lines(text)
        &&& t.cy <= num_lines(text)
        &&& line_start(text, t.visual_anchor.0 as int) + t.visual_anchor.1 < usize::MAX
        &&& line_start(text, t.cy as int) + t.cx < usize::MAX
    }
}

/// The first line that the view shows and how many of its wrapped rows lie above the
/// view, looking from line `i` on with `acc` rows above line `i`.
pub open spec fn view_start_from(t: Seq<char>, cols: int, offset: int, i: int, acc: int) -> (int, int)
    decreases num_lines(t) - i,
{
    if i >= num_lines(t) {
        (num_lines(t) as int, 0)
    } else {
        let lh = wrap_height(t, i, cols);
        if acc + lh > offset {
            (i, offset - acc)
        } else {
            view_start_from(t, cols, offset, i + 1, acc + lh)
        }
    }
}

/// The mode as the status line names it.
pub open spec fn mode_label(m: Mode) -> Seq<char> {
    match m {
        Mode::Normal => " NORMAL "@,
        Mode::Insert => " INSERT "@,
        Mode::Visual => " VISUAL "@,
        Mode::Command => " COMMAND "@,
    }
}

/// The status line at `cols` columns: mode, buffer name, buffer number, and the cursor's
/// line and column (from 1) at the right. The padding is counted in bytes.
pub open spec fn status_spec(v: AppView, cols: int) -> Seq<char> {
    let t = v.active();
    let fname = shown_name(v.active_buffer().filename);
    let info = "[buf:"@ + dec_str(t.buffer_id as nat) + "]"@;
    let pos = " "@ + dec_str((t.cy + 1) as nat) + ":"@ + dec_str((t.cx + 1) as nat) + " "@;
    let used = mode_label(t.mode).len() + encode_utf8(fname).len() + info.len() + 2 + pos.len();
    let pad = if cols > used { cols - used } else { 0 };
    mode_label(t.mode) + fname + " "@ + info + " "@ + spaces(pad as nat) + pos
}

impl App {
    /// Whether the character at column `col` of line `row` is in the visual selection.
    /// In visual mode the anchor's line, the cursor's line and `row` must be at most one
    /// past the last line.
    pub fn is_in_visual_selection(&self, row: usize, col: usize) -> (r: bool)
        requires
            self@.wf(),
            self@.active_ok(),
            self@.active().mode == Mode::Visual ==> {
                let text = self@.active_text();
                let t = self@.active();
                &&& t.visual_anchor.0 <= num_lines(text)
                &&& t.cy <= num_lines(text)
                &&& row <= num_lines(text)
                &&& line_start(text, t.visual_anchor.0 as int) + t.visual_anchor.1 < usize::MAX
                &&& line_start(text, t.cy as int) + t.cx < usize::MAX
                &&& line_start(text, row as int) + col <= usize::MAX
            },
        ensures
            r == in_selection(self@, row, col),
    {
        let tab = self.tab();
        if tab.mode != Mode::Visual {
            return false;
        }
        let buf = self.buf();
        let anchor = rope_line_to_char(&buf.rope, tab.visual_anchor.0) + tab.visual_anchor.1;
        let cursor = rope_line_to_char(&buf.rope, tab.cy) + tab.cx;
        let len = rope_len_chars(&buf.rope);
        let (start, end) = if anchor <= cursor {
            (anchor, if cursor + 1 < len {
                cursor + 1
            } else {
                len
            })
        } else {
            (cursor, if anchor + 1 < len {
                anchor + 1
            } else {
                len
            })
        };
        let pos = rope_line_to_char(&buf.rope, row) + col;
        pos >= start && pos < end
    }

    /// The first line in view and how many of its wrapped rows are scrolled off, at
    /// `width` columns. When the view starts below the text, the line is one past the last.
    pub fn view_start(&self, width: u16) -> (r: (usize, usize))
        requires
            self@.wf(),
            self@.active_ok(),
            rows_before(self@.active_text(), num_lines(self@.active_text()) as int, width as int) <= usize::MAX,
        ensures
            (r.0 as int, r.1 as int) == view_start_from(self@.active_text(), width as int, self@.active().offset as int, 0, 0),
            r.0 <= num_lines(self@.active_text()),
    {
        let ghost t = self@.active_text();
        let offset = self.tab().offset;
        let n = self.line_count();
        let mut acc: usize = 0;
        let mut i: usize = 0;
        while i < n
            invariant
                self@.wf(),
                self@.active_ok(),
                t == self@.active_text(),
                n == num_lines(t),
                offset == self@.active().offset,
                i <= n,
                acc == rows_before(t, i as int, width as int),
                acc <= offset,
                rows_before(t, n as int, width as int) <= usize::MAX,
                view_start_from(t, width as int, offset as int, i as int, acc as int) == view_start_from(t, width as int, offset as int, 0, 0),
            decreases n - i,
        {
            proof { lemma_rows_before_mono(t, (i + 1) as int, n as int, width as int); }
            let lh = self.wrapped_line_height(i, width);
            if acc + lh > offset {
                return (i, offset - acc);
            }
            acc = acc + lh;
            i = i + 1;
        }
        (n, 0)
    }

    /// The status line at `width` columns (longer than `width` when the parts do not fit;
    /// the screen shows its first `width` bytes).
    pub fn status_line(&self, width: u16) -> (s: String)
        requires
            self@.wf(),
            self@.active_ok(),
            self@.active().cx < usize::MAX,
            self@.active().cy < usize::MAX,
        ensures
            s@ == status_spec(self@, width as int),
    {
        let tab = self.tab();
        let buf = self.buf();
        let mode_str = match tab.mode {
            Mode::Normal => " NORMAL ",
            Mode::Insert => " INSERT ",
            Mode::Visual => " VISUAL ",
            Mode::Command => " COMMAND ",
        };
        let fname = buf.name();
        let mut info = str_to_string("[buf:");
        push_usize(&mut info, tab.buffer_id);
        info.append("]");
        let mut pos = str_to_string(" ");
        push_usize(&mut pos, tab.cy + 1);
        pos.append(":");
        push_usize(&mut pos, tab.cx + 1);
        pos.append(" ");
        proof {
            reveal_strlit(" NORMAL ");
            reveal_strlit(" INSERT ");
            reveal_strlit(" VISUAL ");
            reveal_strlit(" COMMAND ");
            reveal_strlit("[buf:");
            reveal_strlit("]");
            reveal_strlit(" ");
            reveal_strlit(":");
        }
        let ml = mode_str.unicode_len();
        let fl = fname.as_bytes().len();
        let il = info.as_str().unicode_len();
        let pl = pos.as_str().unicode_len();
        proof { lemma_dec_len(tab.buffer_id as nat); lemma_dec_len((tab.cy + 1) as nat); lemma_dec_len((tab.cx + 1) as nat); }
        let used = fl.saturating_add(ml + il + 2 + pl);
        let cols = self.cols(width);
        let pad = cols.saturating_sub(used);
        let mut status = str_to_string(mode_str);
        status.append(fname);
        status.append(" ");
        status.append(info.as_str());
        status.append(" ");
        push_spaces(&mut status, pad);
        status.append(pos.as_str());
        proof {
            assert(fname.spec_bytes() == encode_utf8(fname@));
        }
        assert(status@ =~= status_spec(self@, width as int));
        status
    }
}

/// `10^k`.
pub open spec fn pow10(k: nat) -> nat
    decreases k,
{
    if k == 0 {
        1
    } else {
        10 * pow10((k - 1) as nat)
    }
}

proof fn lemma_dec_len_bound(n: nat, k: nat)
    requires
        k >= 1,
        n < pow10(k),
    ensures
        dec_str(n).len() <= k,
    decreases k,
{
    if n >= 10 {
        assert(n / 10 < pow10((k - 1) as nat)) by (nonlinear_arith)
            requires n < 10 * pow10((k - 1) as nat);
        if k == 1 {
            assert(pow10(0) == 1);
        } else {
            lemma_dec_len_bound(n / 10, (k - 1) as nat);
        }
    }
}

/// A `usize` has at most 20 decimal digits.
proof fn lemma_dec_len(n: nat)
    requires
        n <= usize::MAX,
    ensures
        dec_str(n).len() <= 20,
{
    assert(pow10(20) == 100000000000000000000) by {
        reveal_with_fuel(pow10, 21);
    }
    lemma_dec_len_bound(n, 20);
}

/// What the tab bar shows of a buffer name: its last 14 bytes when it is longer.
pub open spec fn tab_label_spec(name: Seq<u8>) -> Seq<u8> {
    if name.len() > 14 {
        name.subrange(name.len() - 14, name.len() as int)
    } else {
        name
    }
}

/// The label of a tab in the tab bar: the last 14 bytes of the buffer name when it is
/// longer. The cut must not fall inside a character.
pub fn tab_label(name: &str) -> (r: &str)
    requires
        name.spec_bytes().len() > 14 ==> vstd::utf8::is_char_boundary(
            name.spec_bytes(),
            name.spec_bytes().len() - 14,
        ),
    ensures
        r.spec_bytes() == tab_label_spec(name.spec_bytes()),
{
    let n = name.as_bytes().len();
    if n > 14 {
        let (_, tail) = name.split_at(n - 14);
        tail
    } else {
        name
    }
}

/// The buffer that tab `i` shows.
pub open spec fn tab_buffer(v: AppView, i: int) -> crate::model::BufferView {
    v.buffers[v.tabs[i].buffer_id]
}

/// The bytes of the name that tab `i` shows its buffer under.
pub open spec fn tab_name_bytes(v: AppView, i: int) -> Seq<u8> {
    encode_utf8(shown_name(tab_buffer(v, i).filename))
}

impl App {
    /// The tab bar, one entry per tab in order: the tab's label (see `tab_label`),
    /// whether its buffer has unsaved changes, and whether it is the active tab. Every
    /// tab must show a buffer that exists, and a name longer than 14 bytes must not be
    /// cut inside a character.
    pub fn tab_bar(&self) -> (r: Vec<(&str, bool, bool)>)
        requires
            self@.wf(),
            forall|i: int| 0 <= i < self@.tabs.len() ==> self@.has_buffer(#[trigger] self@.tabs[i].buffer_id),
            forall|i: int|
                0 <= i < self@.tabs.len() && #[trigger] tab_name_bytes(self@, i).len() > 14 ==> vstd::utf8::is_char_boundary(
                    tab_name_bytes(self@, i),
                    tab_name_bytes(self@, i).len() - 14,
                ),
        ensures
            r@.len() == self@.tabs.len(),
            forall|i: int| 0 <= i < r@.len() ==> {
                &&& (#[trigger] r@[i]).0.spec_bytes() == tab_label_spec(tab_name_bytes(self@, i))
                &&& r@[i].1 == tab_buffer(self@, i).dirty
                &&& r@[i].2 == (i == self@.active_tab)
            },
    {
        let mut r: Vec<(&str, bool, bool)> = Vec::new();
        let mut i: usize = 0;
        while i < self.tabs.len()
            invariant
                self@.wf(),
                forall|j: int| 0 <= j < self@.tabs.len() ==> self@.has_buffer(#[trigger] self@.tabs[j].buffer_id),
                forall|j: int|
                    0 <= j < self@.tabs.len() && #[trigger] tab_name_bytes(self@, j).len() > 14 ==> vstd::utf8::is_char_boundary(
                        tab_name_bytes(self@, j),
                        tab_name_bytes(self@, j).len() - 14,
                    ),
                i <= self@.tabs.len(),
                r@.len() == i,
                forall|j: int| 0 <= j < r@.len() ==> {
                    &&& (#[trigger] r@[j]).0.spec_bytes() == tab_label_spec(tab_name_bytes(self@, j))
                    &&& r@[j].1 == tab_buffer(self@, j).dirty
                    &&& r@[j].2 == (j == self@.active_tab)
                },
            decreases self@.tabs.len() - i,
        {
            assert(self@.has_buffer(self@.tabs[i as int].buffer_id));
            let buf = self.buffers.get(&self.tabs[i].buffer_id).unwrap();
            let name = buf.name();
            assert(name.spec_bytes() == tab_name_bytes(self@, i as int));
            let label = tab_label(name);
            r.push((label, buf.dirty, i == self.active_tab));
            i = i + 1;
        }
        r
    }
}

/// The group heading the palette shows for the command line `input`.
pub open spec fn group_label_spec(input: Seq<char>) -> Option<Seq<char>> {
    let starts = |p: Seq<char>| p.len() <= input.len() && input.take(p.len() as int) == p;
    if starts("f"@) && !input.contains(' ') {
        Some("── File ──"@)
    } else if starts("b"@) && !input.contains(' ') {
        Some("── Buffer ──"@)
    } else if starts("t"@) && !input.contains(' ') {
        Some("── Tab ──"@)
    } else if starts("set"@) {
        Some("── Settings ──"@)
    } else {
        None
    }
}

/// The group heading of the palette for a non-empty command line, if it names a group.
pub fn palette_group_label(input: &str) -> (r: Option<&'static str>)
    ensures
        r matches Some(l) ==> group_label_spec(input@) == Some(l@),
        r is None ==> group_label_spec(input@) is None,
{
    if starts_with(input, "f") && !contains_char(input, ' ') {
        Some("── File ──")
    } else if starts_with(input, "b") && !contains_char(input, ' ') {
        Some("── Buffer ──")
    } else if starts_with(input, "t") && !contains_char(input, ' ') {
        Some("── Tab ──")
    } else if starts_with(input, "set") {
        Some("── Settings ──")
    } else {
        None
    }
}

/// The number of palette columns at `cols` screen columns: one per 34, at least one.
pub open spec fn palette_columns_spec(cols: usize) -> usize {
    if cols / 34 > 1 {
        cols / 34
    } else {
        1
    }
}

/// The suggestions of the palette (see `palette_suggestions`).
pub open spec fn palette_suggestions_spec(input: Seq<char>) -> Seq<Seq<char>> {
    let all = command_names().filter(begins_with(input));
    if all.len() > 10 { all.take(10) } else { all }
}

/// The commands the palette offers for `input`: those that begin with it, in palette
/// order, at most 10.
pub fn palette_suggestions(input: &str) -> (r: Vec<&'static str>)
    ensures
        views(r@) == palette_suggestions_spec(input@),
{
    let all = filter_commands(input);
    let mut r: Vec<&'static str> = Vec::new();
    let mut i: usize = 0;
    while i < all.len() && i < 10
        invariant
            i <= all@.len(),
            i <= 10,
            views(r@) == views(all@).take(i as int),
        decreases all@.len() - i,
    {
        let ghost before = views(r@);
        r.push(all[i]);
        assert(views(r@) =~= before.push(all@[i as int]@));
        assert(views(all@)[i as int] == all@[i as int]@);
        i = i + 1;
        assert(views(r@) =~= views(all@).take(i as int));
    }
    assert(views(all@).take(all@.len() as int) =~= views(all@));
    r
}

/// The rows of a grid, read one after the other.
pub open spec fn grid_items<A>(g: Seq<Seq<A>>) -> Seq<A>
    decreases g.len(),
{
    if g.len() == 0 {
        Seq::empty()
    } else {
        grid_items(g.drop_last()) + g.last()
    }
}

/// The rows of a grid as sequences.
pub open spec fn grid_view<A>(g: Seq<Vec<A>>) -> Seq<Seq<A>> {
    g.map_values(|r: Vec<A>| r@)
}

/// `items` laid out in rows of `n`, in order; only the last row may hold fewer.
pub fn chunk_rows<A: Copy>(items: &Vec<A>, n: usize) -> (g: Vec<Vec<A>>)
    requires
        n >= 1,
    ensures
        grid_items(grid_view(g@)) == items@,
        g@.len() * n < items@.len() + n,
        forall|i: int| 0 <= i < g@.len() ==> 0 < (#[trigger] g@[i]).len() <= n,
        forall|i: int| 0 <= i < g@.len() - 1 ==> (#[trigger] g@[i]).len() == n,
{
    let mut g: Vec<Vec<A>> = Vec::new();
    let mut row: Vec<A> = Vec::new();
    let mut i: usize = 0;
    assert(g@.len() * n == 0) by (nonlinear_arith)
        requires g@.len() == 0;
    while i < items.len()
        invariant
            i <= items@.len(),
            n >= 1,
            row@.len() < n,
            g@.len() * n + row@.len() == i,
            grid_items(grid_view(g@)) + row@ == items@.take(i as int),
            forall|j: int| 0 <= j < g@.len() ==> (#[trigger] g@[j]).len() == n,
        decreases items@.len() - i,
    {
        let ghost before = row@;
        row.push(items[i]);
        assert(items@.take(i + 1) =~= items@.take(i as int).push(items@[i as int]));
        i = i + 1;
        if row.len() == n {
            let ghost gv = grid_view(g@);
            let ghost glen = g@.len();
            g.push(row);
            row = Vec::new();
            proof {
                assert(grid_view(g@).drop_last() =~= gv);
                assert((glen + 1) * n == glen * n + n) by (nonlinear_arith);
            }
        }
    }
    let ghost full = g@.len();
    if row.len() > 0 {
        let ghost gv = grid_view(g@);
        g.push(row);
        proof {
            assert(grid_view(g@).drop_last() =~= gv);
            assert((full + 1) * n == full * n + n) by (nonlinear_arith);
        }
    }
    assert(items@.take(items@.len() as int) =~= items@);
    g
}

/// The suggestion grid of the palette at `cols` screen columns: the suggestions for
/// `input`, in order, in rows of `palette_columns(cols)` (the last row may hold fewer).
pub fn palette_grid(input: &str, cols: usize) -> (g: Vec<Vec<&'static str>>)
    ensures
        views(grid_items(grid_view(g@))) == palette_suggestions_spec(input@),
        forall|i: int| 0 <= i < g@.len() ==> 0 < (#[trigger] g@[i]).len() <= palette_columns_spec(cols),
        forall|i: int| 0 <= i < g@.len() - 1 ==> (#[trigger] g@[i]).len() == palette_columns_spec(cols),
{
    let items = palette_suggestions(input);
    let n = palette_columns(cols);
    chunk_rows(&items, n)
}

/// The command groups the palette lists while the command line is empty: a prefix and
/// what its commands are for, in rows of `palette_columns(cols)`.
pub fn palette_group_grid(cols: usize) -> (g: Vec<Vec<(&'static str, &'static str)>>)
    ensures
        grid_items(grid_view(g@)) == seq![
            ("f…", "File commands"),
            ("b…", "Buffer commands"),
            ("t…", "Tab commands"),
            ("set…", "Settings"),
            ("help", "Show help"),
        ],
        forall|i: int| 0 <= i < g@.len() ==> 0 < (#[trigger] g@[i]).len() <= palette_columns_spec(cols),
        forall|i: int| 0 <= i < g@.len() - 1 ==> (#[trigger] g@[i]).len() == palette_columns_spec(cols),
{
    let groups = vec![
        ("f…", "File commands"),
        ("b…", "Buffer commands"),
        ("t…", "Tab commands"),
        ("set…", "Settings"),
        ("help", "Show help"),
    ];
    let g = chunk_rows(&groups, palette_columns(cols));
    assert(groups@ =~= seq![
        ("f…", "File commands"),
        ("b…", "Buffer commands"),
        ("t…", "Tab commands"),
        ("set…", "Settings"),
        ("help", "Show help"),
    ]);
    g
}

/// The number of palette columns at `cols` screen columns: one per 34, at least one.
pub fn palette_columns(cols: usize) -> (n: usize)
    ensures
        n == palette_columns_spec(cols),
{
    let n = cols / 34;
    if n > 1 {
        n
    } else {
        1
    }
}

/// A command's description as the palette shows it: at most 16 characters.
pub fn palette_description(cmd: &str) -> (r: &'static str)
    ensures
        r@ == if command_description(cmd@).len() > 16 {
            command_description(cmd@).take(16)
        } else {
            command_description(cmd@)
        },
{
    let d = description(cmd);
    if d.unicode_len() > 16 {
        d.substring_char(0, 16)
    } else {
        d
    }
}

} // verus!
