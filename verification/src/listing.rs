//! The list of buffers that `:ls` shows.
use vstd::prelude::*;
use crate::model::{BufferView, AppView, shown_name};
use crate::editor::App;
use crate::text::num_lines;
use crate::rope::rope_len_lines;
use crate::strutil::{dec_str, pad_left, pad_right, str_to_string, usize_to_string, push_pad_left, push_pad_right};

verus! {

broadcast use vstd::std_specs::hash::group_hash_axioms;

/// The line of the list for buffer `b`; `current` is the buffer of the active tab.
pub open spec fn buffer_line(b: BufferView, current: usize) -> Seq<char> {
    "  "@ + (if b.id == current {
        "%"@
    } else {
        " "@
    }) + (if b.dirty {
        "+"@
    } else {
        " "@
    }) + " "@ + pad_left(dec_str(b.id as nat), 3) + ": "@ + pad_right(shown_name(b.filename), 30) + " "@
        + pad_left(dec_str(num_lines(b.text)), 5) + " lines"@ + (if b.crashed {
        " CRASHED"@
    } else {
        ""@
    })
}

/// The lines for the buffers `bs`, each after a line break.
pub open spec fn buffer_lines(bs: Seq<BufferView>, current: usize) -> Seq<char>
    decreases bs.len(),
{
    if bs.len() == 0 {
        Seq::empty()
    } else {
        buffer_lines(bs.drop_last(), current) + "\n"@ + buffer_line(bs.last(), current)
    }
}

/// The buffers of `m` numbered below `n`, in ascending order of number.
pub open spec fn buffers_below(m: Map<usize, BufferView>, n: int) -> Seq<BufferView>
    decreases n,
{
    if n <= 0 {
        Seq::empty()
    } else {
        let r = buffers_below(m, n - 1);
        if m.contains_key((n - 1) as usize) {
            r.push(m[(n - 1) as usize])
        } else {
            r
        }
    }
}

/// The buffer list: a header, one line per buffer in ascending order of number, a legend.
pub open spec fn buffer_list_spec(v: AppView) -> Seq<char> {
    "  Buffers:"@ + "\n"@ + "  ─────────────────────────────────────"@ + buffer_lines(
        buffers_below(v.buffers, v.next_buf_id as int),
        v.active().buffer_id,
    ) + "\n"@ + "\n"@
        + "  % = active in current tab"@ + "\n"@ + "  + = unsaved changes"@ + "\n"@
        + "  Use :buffer <id> to switch"@
}

/// Appends `piece` to `out`, where `out` is `base` followed by `line`; the new line is `line + piece`.
fn append_piece(out: &mut String, piece: &str, Ghost(base): Ghost<Seq<char>>, Ghost(line): Ghost<Seq<char>>)
    requires
        old(out)@ == base + line,
    ensures
        final(out)@ == base + (line + piece@),
{
    out.append(piece);
    assert(out@ =~= base + (line + piece@));
}

/// Appends a line break and the line for buffer `b`.
fn push_buffer_line(out: &mut String, b: &crate::editor::Buffer, current: usize)
    ensures
        final(out)@ == old(out)@ + "\n"@ + buffer_line(b@, current),
{
    out.append("\n");
    let ghost base = out@;
    assert(out@ =~= base + Seq::<char>::empty());
    append_piece(out, "  ", Ghost(base), Ghost(Seq::empty()));
    let ghost l = Seq::<char>::empty() + "  "@;
    let mark = if b.id == current {
        "%"
    } else {
        " "
    };
    append_piece(out, mark, Ghost(base), Ghost(l));
    let ghost l = l + mark@;
    let dirty = if b.dirty {
        "+"
    } else {
        " "
    };
    append_piece(out, dirty, Ghost(base), Ghost(l));
    let ghost l = l + dirty@;
    append_piece(out, " ", Ghost(base), Ghost(l));
    let ghost l = l + " "@;
    let id_str = usize_to_string(b.id);
    let ghost before = out@;
    push_pad_left(out, id_str.as_str(), 3);
    let ghost l = l + pad_left(dec_str(b.id as nat), 3);
    assert(out@ =~= base + l);
    append_piece(out, ": ", Ghost(base), Ghost(l));
    let ghost l = l + ": "@;
    push_pad_right(out, b.name(), 30);
    let ghost l = l + pad_right(shown_name(b@.filename), 30);
    assert(out@ =~= base + l);
    append_piece(out, " ", Ghost(base), Ghost(l));
    let ghost l = l + " "@;
    let lines_str = usize_to_string(rope_len_lines(&b.rope));
    push_pad_left(out, lines_str.as_str(), 5);
    let ghost l = l + pad_left(dec_str(num_lines(b@.text)), 5);
    assert(out@ =~= base + l);
    append_piece(out, " lines", Ghost(base), Ghost(l));
    let ghost l = l + " lines"@;
    let crash = if b.crashed {
        " CRASHED"
    } else {
        ""
    };
    append_piece(out, crash, Ghost(base), Ghost(l));
    let ghost l = l + crash@;
    assert(l =~= buffer_line(b@, current));
}

impl App {
    /// The buffer list, one line per buffer: number, name, line count, and marks for
    /// the active tab's buffer (`%`), unsaved changes (`+`) and crashes.
    pub fn buffer_list(&self) -> (s: String)
        requires
            self@.wf(),
        ensures
            s@ == buffer_list_spec(self@),
    {
        let current = self.tabs[self.active_tab].buffer_id;
        let mut out = str_to_string("  Buffers:");
        out.append("\n");
        out.append("  ─────────────────────────────────────");
        let ghost head = out@;
        let n = self.next_buf_id;
        let mut i: usize = 0;
        while i < n
            invariant
                i <= n,
                n == self@.next_buf_id,
                current == self@.active().buffer_id,
                self@.wf(),
                out@ == head + buffer_lines(buffers_below(self@.buffers, i as int), current),
            decreases n - i,
        {
            let ghost before = buffers_below(self@.buffers, i as int);
            match self.buffers.get(&i) {
                Some(b) => {
                    push_buffer_line(&mut out, b, current);
                    proof {
                        assert(before.push(self@.buffers[i]).drop_last() =~= before);
                    }
                },
                None => {},
            }
            i = i + 1;
        }
        out.append("\n");
        out.append("\n");
        out.append("  % = active in current tab");
        out.append("\n");
        out.append("  + = unsaved changes");
        out.append("\n");
        out.append("  Use :buffer <id> to switch");
        out
    }
}

} // verus!
