//! What the text area of the screen shows: the wrapped rows of the lines in view, each
//! character with its colour and whether it is selected.
use vstd::prelude::*;
use crate::editor::{App, rows_spec};
use crate::highlight::{Rgb, pieces_text, piece_colors, highlighted, has_syntax, has_theme, find_syntax, find_theme,
    new_highlighter, highlight_next_line};
use crate::model::AppView;
use crate::mode::Mode;
use crate::render::{wrap_height, rows_before, cursor_row, view_start_from, in_selection, selection_in_range,
    lemma_rows_before_mono};
use crate::rope::{rope_text, rope_len_chars, rope_len_lines, rope_line_to_char, rope_char, rope_line_string, line_visible_len};
use crate::text::{num_lines, line_start, line_len, full_line_len, lemma_line_start};

verus! {

/// One character on the screen.
#[derive(Clone, Copy)]
pub struct Cell {
    pub ch: char,
    pub fg: Rgb,
    pub selected: bool,
}

/// One screen row of text: wrap row `wrap` of buffer line `line`.
pub struct ScreenRow {
    pub line: usize,
    pub wrap: usize,
    /// The row belongs to the cursor's line and the cursor line is marked.
    pub cursorline: bool,
    pub cells: Vec<Cell>,
}

/// There is one colour per character of the highlighted line.
pub proof fn lemma_piece_colors_len(pieces: Seq<(Rgb, String)>)
    ensures
        piece_colors(pieces).len() == pieces_text(pieces).len(),
    decreases pieces.len(),
{
    if pieces.len() > 0 {
        lemma_piece_colors_len(pieces.drop_last());
    }
}

/// The colours of the characters of a highlighted line, one per character, in order.
pub fn line_colors(pieces: &Vec<(Rgb, String)>) -> (c: Vec<Rgb>)
    ensures
        c@ == piece_colors(pieces@),
{
    let mut c: Vec<Rgb> = Vec::new();
    let mut i: usize = 0;
    while i < pieces.len()
        invariant
            i <= pieces@.len(),
            c@ == piece_colors(pieces@.take(i as int)),
        decreases pieces@.len() - i,
    {
        let color = pieces[i].0;
        let n = pieces[i].1.as_str().unicode_len();
        let ghost before = c@;
        let mut j: usize = 0;
        while j < n
            invariant
                j <= n,
                c@ == before + Seq::new(j as nat, |x: int| color),
            decreases n - j,
        {
            c.push(color);
            j = j + 1;
            assert(c@ =~= before + Seq::new(j as nat, |x: int| color));
        }
        assert(pieces@.take(i + 1).drop_last() =~= pieces@.take(i as int));
        i = i + 1;
        assert(c@ =~= piece_colors(pieces@.take(i as int)));
    }
    assert(pieces@.take(pieces@.len() as int) =~= pieces@);
    c
}

/// One past the last column of line `k` that wrap row `w` shows at `cols` columns.
pub open spec fn wrap_end(t: Seq<char>, k: int, w: int, cols: int) -> int {
    if (w + 1) * cols < line_len(t, k) {
        (w + 1) * cols
    } else {
        line_len(t, k)
    }
}

/// Row `r` shows, at `cols` columns, wrap row `r.wrap` of line `r.line` of the active
/// buffer: the characters from column `r.wrap * cols` up to `wrap_end`, which of them
/// lie in the visual selection, and whether it is the cursor's line with the cursor
/// line marked.
pub open spec fn row_shows(v: AppView, cols: int, r: ScreenRow) -> bool {
    let t = v.active_text();
    let k = r.line as int;
    let lo = r.wrap * cols;
    &&& r.cursorline == (v.active().cursorline && r.line == v.active().cy)
    &&& r.cells@.len() == wrap_end(t, k, r.wrap as int, cols) - lo
    &&& forall|j: int|
        0 <= j < r.cells@.len() ==> {
            &&& (#[trigger] r.cells@[j]).ch == t[line_start(t, k) + lo + j]
            &&& r.cells@[j].selected == in_selection(v, r.line, (lo + j) as usize)
        }
}

/// The characters of row `r` have the colours of their columns in `colors`.
pub open spec fn row_colored(colors: Seq<Rgb>, cols: int, r: ScreenRow) -> bool {
    forall|j: int| 0 <= j < r.cells@.len() ==> (#[trigger] r.cells@[j]).fg == colors[r.wrap * cols + j]
}

/// The lines of `t`, each with its line break.
pub open spec fn text_lines(t: Seq<char>) -> Seq<Seq<char>> {
    Seq::new(num_lines(t), |k: int| t.subrange(line_start(t, k), line_start(t, k + 1)))
}

/// What highlighting line `k` of `t` gives, the lines before it having been fed first.
pub open spec fn line_colours(syntax: Seq<char>, theme: Seq<char>, t: Seq<char>, k: int) -> Option<Seq<Rgb>> {
    highlighted(syntax, theme, text_lines(t).take(k + 1))
}

/// Whether highlighting succeeds, for each line from `start` on.
pub open spec fn highlight_ok(syntax: Seq<char>, theme: Seq<char>, t: Seq<char>, start: int) -> Seq<bool> {
    Seq::new((num_lines(t) - start) as nat, |j: int| line_colours(syntax, theme, t, start + j) is Some)
}

/// The colours in `o`, none where there are none.
pub open spec fn colours_of(o: Option<Seq<Rgb>>) -> Seq<Rgb> {
    match o {
        Some(c) => c,
        None => Seq::empty(),
    }
}

/// Which line and which of its wrap rows each screen row shows.
pub open spec fn row_keys(rows: Seq<ScreenRow>) -> Seq<(int, int)> {
    rows.map_values(|r: ScreenRow| (r.line as int, r.wrap as int))
}

/// The wrap rows of line `k` from row `first` on.
pub open spec fn line_wraps(t: Seq<char>, cols: int, k: int, first: int) -> Seq<(int, int)> {
    let h = wrap_height(t, k, cols);
    let n = if h > first { h - first } else { 0 };
    Seq::new(n as nat, |j: int| (k, first + j))
}

/// The wrap rows of the lines from `start` up to `k`, the first `skip` rows of line
/// `start` left out, and so are the lines whose entry in `ok` (counted from `start`)
/// is false.
pub open spec fn wraps_upto(t: Seq<char>, cols: int, start: int, skip: int, ok: Seq<bool>, k: int) -> Seq<(int, int)>
    decreases k - start,
{
    if k <= start {
        Seq::empty()
    } else {
        let j = k - 1;
        let first = if j == start { skip } else { 0 };
        wraps_upto(t, cols, start, skip, ok, j) + if ok[j - start] {
            line_wraps(t, cols, j, first)
        } else {
            Seq::empty()
        }
    }
}

/// At most the first `n` elements of `s`.
pub open spec fn at_most<A>(s: Seq<A>, n: int) -> Seq<A> {
    if s.len() > n {
        s.take(n)
    } else {
        s
    }
}

/// The rows of the text area: the wrap rows from the top of the view on, of the lines
/// whose highlighting succeeded (`ok`), as many as there are rows for text.
pub open spec fn shown_wraps(v: AppView, width: u16, height: u16, ok: Seq<bool>) -> Seq<(int, int)> {
    let t = v.active_text();
    let (start, skip) = view_start_from(t, width as int, v.active().offset as int, 0, 0);
    at_most(wraps_upto(t, width as int, start, skip, ok, num_lines(t) as int), rows_spec(v, height) as int)
}

/// The rows up to `k1` come first among the rows up to `k2`.
proof fn lemma_wraps_prefix(t: Seq<char>, cols: int, start: int, skip: int, ok: Seq<bool>, k1: int, k2: int)
    requires
        k1 <= k2,
    ensures
        wraps_upto(t, cols, start, skip, ok, k1).len() <= wraps_upto(t, cols, start, skip, ok, k2).len(),
        wraps_upto(t, cols, start, skip, ok, k2).take(wraps_upto(t, cols, start, skip, ok, k1).len() as int)
            == wraps_upto(t, cols, start, skip, ok, k1),
    decreases k2 - k1,
{
    let w1 = wraps_upto(t, cols, start, skip, ok, k1);
    let w2 = wraps_upto(t, cols, start, skip, ok, k2);
    if k1 < k2 {
        lemma_wraps_prefix(t, cols, start, skip, ok, k1, k2 - 1);
        let w = wraps_upto(t, cols, start, skip, ok, k2 - 1);
        if k2 > start {
            assert(w2.take(w.len() as int) =~= w);
            assert(w2.take(w1.len() as int) =~= w.take(w1.len() as int));
        } else {
            assert(w2 == w);
        }
    } else {
        assert(w2.take(w1.len() as int) =~= w1);
    }
}

/// Only the entries of `ok` for the lines before `k` matter.
proof fn lemma_wraps_ok(t: Seq<char>, cols: int, start: int, skip: int, ok1: Seq<bool>, ok2: Seq<bool>, k: int)
    requires
        forall|j: int| 0 <= j < k - start ==> ok1[j] == ok2[j],
    ensures
        wraps_upto(t, cols, start, skip, ok1, k) == wraps_upto(t, cols, start, skip, ok2, k),
    decreases k - start,
{
    if k > start {
        lemma_wraps_ok(t, cols, start, skip, ok1, ok2, k - 1);
    }
}

/// Wrap row `w` of a line of `len` characters starts inside the line when `w` is below
/// the line's wrapped height.
proof fn lemma_wrap_start(len: int, cols: int, w: int)
    requires
        len > 0,
        cols > 0,
        0 <= w < (len + cols - 1) / cols,
    ensures
        w * cols < len,
        0 <= w * cols,
{
    let q = (len + cols - 1) / cols;
    assert(q * cols <= len + cols - 1) by (nonlinear_arith)
        requires q == (len + cols - 1) / cols, cols > 0, len > 0;
    assert(w * cols <= q * cols - cols) by (nonlinear_arith)
        requires w <= q - 1, cols > 0;
    assert(0 <= w * cols) by (nonlinear_arith)
        requires w >= 0, cols > 0;
}

/// What scrolling and drawing a frame need of the editor state, in a terminal `width`
/// columns wide and `height` rows high: room for the tab bar, the status line and the
/// command line; the rows of the whole text, the cursor's row (one more than it, too),
/// the scroll offset plus the rows for text, and the cursor's line and column (one more
/// than each) fit in a `usize`; the visual selection lies in the text; and with no
/// columns at all, no line from the top of the view on has characters to show.
pub open spec fn frame_fits(v: AppView, width: u16, height: u16) -> bool {
    let t = v.active_text();
    &&& height >= 3
    &&& rows_before(t, num_lines(t) as int, width as int) <= usize::MAX
    &&& cursor_row(v, width as int) < usize::MAX
    &&& v.active().offset + rows_spec(v, height) <= usize::MAX
    &&& v.active().cx < usize::MAX
    &&& v.active().cy < usize::MAX
    &&& selection_in_range(v)
    &&& (width > 0 || forall|j: int|
        view_start_from(t, width as int, v.active().offset as int, 0, 0).0 <= j < num_lines(t) ==> line_len(t, j)
            == 0)
}

/// Lines past the end of the text take one row each.
proof fn lemma_rows_past_end(t: Seq<char>, m: int, cols: int)
    requires
        m >= num_lines(t),
    ensures
        rows_before(t, m, cols) == rows_before(t, num_lines(t) as int, cols) + (m - num_lines(t)),
    decreases m - num_lines(t),
{
    if m > num_lines(t) {
        lemma_rows_past_end(t, m - 1, cols);
    }
}

impl App {
    /// Whether `frame_fits` holds: what to check before scrolling and drawing.
    pub fn can_draw(&self, width: u16, height: u16) -> (r: bool)
        requires
            self@.wf(),
            self@.active_ok(),
        ensures
            r == frame_fits(self@, width, height),
    {
        if height < 3 {
            return false;
        }
        let ghost v = self@;
        let ghost t = self@.active_text();
        let ghost cw = width as int;
        let tab = self.tab();
        let buf = self.buf();
        let n = rope_len_lines(&buf.rope);
        let mut acc: usize = 0;
        let mut i: usize = 0;
        while i < n
            invariant
                v == self@,
                t == v.active_text(),
                v.wf(),
                v.active_ok(),
                cw == width as int,
                n == num_lines(t),
                i <= n,
                acc == rows_before(t, i as int, cw),
            decreases n - i,
        {
            let h = self.wrapped_line_height(i, width);
            if h > usize::MAX - acc {
                proof { lemma_rows_before_mono(t, (i + 1) as int, n as int, cw); }
                return false;
            }
            acc = acc + h;
            i = i + 1;
        }
        let cy = tab.cy;
        let cx = tab.cx;
        let cols = self.cols(width);
        let above: usize;
        if cy <= n {
            proof { lemma_rows_before_mono(t, cy as int, n as int, cw); }
            above = self.rows_above(cy, width);
        } else {
            proof { lemma_rows_past_end(t, cy as int, cw); }
            if cy - n > usize::MAX - acc {
                return false;
            }
            above = acc + (cy - n);
        }
        let wrap = if cols > 0 {
            cx / cols
        } else {
            0
        };
        if wrap >= usize::MAX - above {
            return false;
        }
        let nrows = self.rows(height);
        if tab.offset > usize::MAX - nrows {
            return false;
        }
        if cx == usize::MAX || cy == usize::MAX {
            return false;
        }
        if tab.mode == Mode::Visual {
            let al = tab.visual_anchor.0;
            let ac = tab.visual_anchor.1;
            if al > n || cy > n {
                return false;
            }
            let a0 = rope_line_to_char(&buf.rope, al);
            if ac >= usize::MAX - a0 {
                return false;
            }
            let c0 = rope_line_to_char(&buf.rope, cy);
            if cx >= usize::MAX - c0 {
                return false;
            }
        }
        if width == 0 {
            let (start, _) = self.view_start(width);
            let mut j: usize = start;
            while j < n
                invariant
                    v == self@,
                    t == v.active_text(),
                    rope_text(buf.rope) == t,
                    n == num_lines(t),
                    width == 0,
                    start <= j <= n,
                    start as int == view_start_from(t, width as int, v.active().offset as int, 0, 0).0,
                    forall|x: int| start <= x < j ==> line_len(t, x) == 0,
                decreases n - j,
            {
                if line_visible_len(&buf.rope, j) != 0 {
                    assert(line_len(t, j as int) != 0);
                    return false;
                }
                j = j + 1;
            }
        }
        true
    }

    /// The screen rows of line `k` of the active buffer from its wrap row `first` on,
    /// at most `limit` of them, for a terminal `width` columns wide, the characters
    /// coloured by `colors` (the colours of the characters of the line, in order).
    pub fn line_rows(&self, k: usize, first: usize, colors: &Vec<Rgb>, width: u16, limit: usize) -> (rows: Vec<ScreenRow>)
        requires
            self@.wf(),
            self@.active_ok(),
            k < num_lines(self@.active_text()),
            colors@.len() >= line_len(self@.active_text(), k as int),
            width > 0 || line_len(self@.active_text(), k as int) == 0,
            selection_in_range(self@),
        ensures
            ({
                let h = wrap_height(self@.active_text(), k as int, width as int);
                let avail = if h > first { h - first } else { 0 };
                rows@.len() == if avail < limit { avail } else { limit as int }
            }),
            forall|i: int| 0 <= i < rows@.len() ==> {
                &&& (#[trigger] rows@[i]).line == k
                &&& rows@[i].wrap == first + i
                &&& row_shows(self@, width as int, rows@[i])
                &&& row_colored(colors@, width as int, rows@[i])
            },
    {
        let ghost v = self@;
        let ghost t = self@.active_text();
        let buf = self.buf();
        let tab = self.tab();
        let total = rope_len_chars(&buf.rope);
        let len = line_visible_len(&buf.rope, k);
        let ls = rope_line_to_char(&buf.rope, k);
        let h = self.wrapped_line_height(k, width);
        let cols = self.cols(width);
        let cursorline = tab.cursorline && k == tab.cy;
        proof {
            lemma_line_start(t, k as int, k + 1);
            assert(len <= line_start(t, k + 1) - line_start(t, k as int));
        }
        let mut rows: Vec<ScreenRow> = Vec::new();
        let mut w: usize = first;
        while w < h && rows.len() < limit
            invariant
                v == self@,
                t == v.active_text(),
                v.wf(),
                v.active_ok(),
                k < num_lines(t),
                total == t.len(),
                rope_text(buf.rope) == t,
                len == line_len(t, k as int),
                ls == line_start(t, k as int),
                ls + len <= total,
                h == wrap_height(t, k as int, width as int),
                h >= 1,
                cols == width as usize,
                width > 0 || len == 0,
                colors@.len() >= len,
                selection_in_range(v),
                cursorline == (v.active().cursorline && k == v.active().cy),
                first <= w,
                rows@.len() == w - first,
                rows@.len() <= limit,
                w <= h || w == first,
                forall|i: int| 0 <= i < rows@.len() ==> {
                    &&& (#[trigger] rows@[i]).line == k
                    &&& rows@[i].wrap == first + i
                    &&& row_shows(v, width as int, rows@[i])
                    &&& row_colored(colors@, width as int, rows@[i])
                },
            decreases h - w,
        {
            proof {
                if len > 0 {
                    lemma_wrap_start(len as int, cols as int, w as int);
                } else {
                    assert(w == 0);
                    assert(w * cols == 0) by (nonlinear_arith)
                        requires w == 0;
                }
            }
            let lo = w * cols;
            let hi = if len - lo > cols {
                lo + cols
            } else {
                len
            };
            proof {
                assert((w + 1) * cols == lo + cols) by (nonlinear_arith)
                    requires lo == w * cols;
            }
            let mut cells: Vec<Cell> = Vec::new();
            let mut j: usize = lo;
            while j < hi
                invariant
                    v == self@,
                    t == v.active_text(),
                    v.wf(),
                    v.active_ok(),
                    k < num_lines(t),
                    total == t.len(),
                    rope_text(buf.rope) == t,
                    ls == line_start(t, k as int),
                    ls + len <= total,
                    lo <= j <= hi,
                    hi <= len,
                    colors@.len() >= len,
                    selection_in_range(v),
                    cells@.len() == j - lo,
                    forall|x: int| 0 <= x < cells@.len() ==> {
                        &&& (#[trigger] cells@[x]).ch == t[ls + lo + x]
                        &&& cells@[x].selected == in_selection(v, k, (lo + x) as usize)
                        &&& cells@[x].fg == colors@[lo + x]
                    },
                decreases hi - j,
            {
                let ch = rope_char(&buf.rope, ls + j);
                let sel = self.is_in_visual_selection(k, j);
                cells.push(Cell { ch, fg: colors[j], selected: sel });
                j = j + 1;
            }
            let row = ScreenRow { line: k, wrap: w, cursorline, cells };
            assert(row_shows(v, width as int, row));
            assert(row_colored(colors@, width as int, row));
            rows.push(row);
            w = w + 1;
        }
        rows
    }
    /// The rows of text that the screen shows in a terminal `width` columns wide and
    /// `height` rows high, the characters coloured by highlighting the buffer with the
    /// default syntax named `syntax` in the default theme under `theme`, the lines above
    /// the view fed to the highlighter first: from the top of the view on, each line cut
    /// into rows of `width` characters, until the rows for text are full or the text
    /// ends. A line whose highlighting fails is left out. `None` when there is no such
    /// syntax or theme.
    pub fn text_rows(&self, syntax: &str, theme: &str, width: u16, height: u16) -> (r: Option<Vec<ScreenRow>>)
        requires
            self@.wf(),
            self@.active_ok(),
            height >= 3,
            rows_before(self@.active_text(), num_lines(self@.active_text()) as int, width as int) <= usize::MAX,
            selection_in_range(self@),
            width > 0 || forall|j: int|
                view_start_from(self@.active_text(), width as int, self@.active().offset as int, 0, 0).0 <= j
                    < num_lines(self@.active_text()) ==> line_len(self@.active_text(), j) == 0,
        ensures
            r is Some <==> has_syntax(syntax@) && has_theme(theme@),
            r matches Some(rows) ==> {
                let t = self@.active_text();
                let start = view_start_from(t, width as int, self@.active().offset as int, 0, 0).0;
                &&& row_keys(rows@) == shown_wraps(self@, width, height, highlight_ok(syntax@, theme@, t, start))
                &&& forall|i: int|
                    0 <= i < rows@.len() ==> {
                        &&& row_shows(self@, width as int, #[trigger] rows@[i])
                        &&& row_colored(colours_of(line_colours(syntax@, theme@, t, rows@[i].line as int)), width as int, rows@[i])
                    }
            },
    {
        let ghost v = self@;
        let ghost t = self@.active_text();
        let ghost cols = width as int;
        let ghost lines = text_lines(t);
        let syn = match find_syntax(&self.ss, syntax) {
            Some(x) => x,
            None => {
                return None;
            },
        };
        let th = match find_theme(&self.ts, theme) {
            Some(x) => x,
            None => {
                return None;
            },
        };
        let (start, skip) = self.view_start(width);
        let ghost full = highlight_ok(syntax@, theme@, t, start as int);
        let nrows = self.rows(height);
        let buf = self.buf();
        let n = rope_len_lines(&buf.rope);
        let mut h = new_highlighter(&self.ss, &syn, &th);
        assert(lines.take(0) =~= Seq::<Seq<char>>::empty());
        let mut i: usize = 0;
        while i < start
            invariant
                i <= start,
                start <= n,
                n == num_lines(t),
                lines == text_lines(t),
                rope_text(buf.rope) == t,
                h.syntax@ == syntax@,
                h.theme@ == theme@,
                h.fed@ == lines.take(i as int),
            decreases start - i,
        {
            let line = rope_line_string(&buf.rope, i);
            let _ = highlight_next_line(&mut h, line.as_str());
            assert(lines.take(i + 1) =~= lines.take(i as int).push(line@));
            i = i + 1;
        }
        let mut rows: Vec<ScreenRow> = Vec::new();
        let mut k: usize = start;
        while k < n && rows.len() < nrows
            invariant
                v == self@,
                t == v.active_text(),
                cols == width as int,
                lines == text_lines(t),
                v.wf(),
                v.active_ok(),
                n == num_lines(t),
                rope_text(buf.rope) == t,
                selection_in_range(v),
                (start as int, skip as int) == view_start_from(t, cols, v.active().offset as int, 0, 0),
                full == highlight_ok(syntax@, theme@, t, start as int),
                width > 0 || forall|j: int| start <= j < n ==> line_len(t, j) == 0,
                nrows == rows_spec(v, height),
                start <= k <= n,
                h.syntax@ == syntax@,
                h.theme@ == theme@,
                h.fed@ == lines.take(k as int),
                row_keys(rows@) == at_most(wraps_upto(t, cols, start as int, skip as int, full, k as int), nrows as int),
                forall|x: int|
                    0 <= x < rows@.len() ==> {
                        &&& row_shows(v, cols, #[trigger] rows@[x])
                        &&& row_colored(colours_of(line_colours(syntax@, theme@, t, rows@[x].line as int)), cols, rows@[x])
                    },
            decreases n - k,
        {
            let ghost w_old = wraps_upto(t, cols, start as int, skip as int, full, k as int);
            let ghost rows_old = rows@;
            assert(w_old.len() < nrows) by {
                if w_old.len() >= nrows {
                    assert(row_keys(rows@).len() == nrows);
                }
            }
            let line = rope_line_string(&buf.rope, k);
            proof {
                assert(line@ == lines[k as int]);
                assert(lines.take(k + 1) =~= lines.take(k as int).push(line@));
                assert(full[k - start] == (line_colours(syntax@, theme@, t, k as int) is Some));
            }
            let res = highlight_next_line(&mut h, line.as_str());
            match res {
                Ok(pieces) => {
                    let colors = line_colors(&pieces);
                    proof {
                        lemma_piece_colors_len(pieces@);
                        lemma_line_start(t, k as int, k + 1);
                        assert(colors@ == colours_of(line_colours(syntax@, theme@, t, k as int)));
                    }
                    let first = if k == start {
                        skip
                    } else {
                        0
                    };
                    let limit = nrows - rows.len();
                    let mut more = self.line_rows(k, first, &colors, width, limit);
                    proof {
                        let lw = line_wraps(t, cols, k as int, first as int);
                        assert(wraps_upto(t, cols, start as int, skip as int, full, k + 1) == w_old + lw);
                        assert(row_keys(more@) =~= lw.take(more@.len() as int));
                        assert(row_keys(rows_old + more@) =~= row_keys(rows_old) + row_keys(more@));
                        assert(row_keys(rows_old + more@) =~= at_most(w_old + lw, nrows as int));
                    }
                    rows.append(&mut more);
                },
                Err(_) => {
                    proof {
                        assert(wraps_upto(t, cols, start as int, skip as int, full, k + 1) == w_old);
                    }
                },
            }
            k = k + 1;
        }
        proof {
            lemma_wraps_prefix(t, cols, start as int, skip as int, full, k as int, n as int);
            let wk = wraps_upto(t, cols, start as int, skip as int, full, k as int);
            let wn = wraps_upto(t, cols, start as int, skip as int, full, n as int);
            if k < n {
                assert(wk.len() >= nrows);
                assert(wn.take(nrows as int) =~= wk.take(nrows as int));
                assert(at_most(wn, nrows as int) =~= at_most(wk, nrows as int));
            }
            assert(row_keys(rows@) == shown_wraps(v, width, height, full));
        }
        Some(rows)
    }
}

} // verus!
