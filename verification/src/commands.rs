//! The commands of the command line, their palette order and their descriptions.
use vstd::prelude::*;
use crate::strutil::{str_eq, starts_with};

verus! {

/// The names of all commands in the order the palette lists them: ascending by
/// character code, each once.
pub open spec fn command_names() -> Seq<Seq<char>> {
    seq!["bk"@, "bl"@, "bnew"@, "buffer"@, "e"@, "fq"@, "fq!"@, "fw"@, "fx"@, "gT"@, "gt"@, "help"@, "kb"@, "ls"@, "q"@, "q!"@, "set cursorline"@, "set nocursorline"@, "tabclose"@, "tabnew"@, "tabnext"@, "tabprev"@, "tclose"@, "tnew"@, "tnext"@, "tprev"@, "w"@, "wq"@, "x"@]
}

/// `a` sorts before `b` when strings are ordered by character code, character by character.
pub open spec fn seq_lt(a: Seq<char>, b: Seq<char>) -> bool
    decreases a.len(),
{
    if a.len() == 0 {
        b.len() > 0
    } else if b.len() == 0 {
        false
    } else if a[0] != b[0] {
        (a[0] as u32) < (b[0] as u32)
    } else {
        seq_lt(a.drop_first(), b.drop_first())
    }
}

/// The description of command `c`; empty for a string that is no command.
pub open spec fn command_description(c: Seq<char>) -> Seq<char> {
    if c == "fw"@ {
        "Save file"@
    } else if c == "fq"@ {
        "Close tab/quit"@
    } else if c == "fq!"@ {
        "Force close"@
    } else if c == "fx"@ {
        "Save and close"@
    } else if c == "bnew"@ {
        "New buffer"@
    } else if c == "buffer"@ {
        "Switch buffer by ID"@
    } else if c == "bk"@ {
        "Kill buffer"@
    } else if c == "bl"@ {
        "List buffers"@
    } else if c == "tnew"@ {
        "New tab"@
    } else if c == "tnext"@ {
        "Next tab"@
    } else if c == "tprev"@ {
        "Previous tab"@
    } else if c == "tclose"@ {
        "Close tab"@
    } else if c == "set cursorline"@ {
        "Highlight cursor line"@
    } else if c == "set nocursorline"@ {
        "Disable cursor highlight"@
    } else if c == "help"@ {
        "Show help"@
    } else if c == "w"@ {
        "Save (alias: fw)"@
    } else if c == "q"@ {
        "Close (alias: fq)"@
    } else if c == "q!"@ {
        "Force close (alias: fq!)"@
    } else if c == "wq"@ {
        "Save+close (alias: fx)"@
    } else if c == "x"@ {
        "Save+close (alias: fx)"@
    } else if c == "e"@ {
        "Open file in buffer"@
    } else if c == "kb"@ {
        "Kill buffer (alias: bk)"@
    } else if c == "ls"@ {
        "List buffers (alias: bl)"@
    } else if c == "tabnew"@ {
        "New tab (alias: tnew)"@
    } else if c == "tabnext"@ {
        "Next tab (alias: tnext)"@
    } else if c == "gt"@ {
        "Next tab (alias: tnext)"@
    } else if c == "tabprev"@ {
        "Prev tab (alias: tprev)"@
    } else if c == "gT"@ {
        "Prev tab (alias: tprev)"@
    } else if c == "tabclose"@ {
        "Close tab (alias: tclose)"@
    } else {
        ""@
    }
}

/// The views of a list of strings.
pub open spec fn views(v: Seq<&str>) -> Seq<Seq<char>> {
    v.map_values(|s: &str| s@)
}

/// Whether a string begins with `p`.
pub open spec fn begins_with(p: Seq<char>) -> spec_fn(Seq<char>) -> bool {
    |c: Seq<char>| p.len() <= c.len() && c.take(p.len() as int) == p
}

/// All commands, in palette order. The table is a sorted vector rather than a
/// `BTreeSet`: vstd's contracts for `BTreeSet` hold only for keys that obey its model of
/// `Ord`, and `&str` is not among them; `lemma_commands_sorted` states the order.
pub fn all_commands() -> (r: Vec<&'static str>)
    ensures
        views(r@) == command_names(),
{
    let r = vec!["bk", "bl", "bnew", "buffer", "e", "fq", "fq!", "fw", "fx", "gT", "gt", "help", "kb", "ls", "q", "q!", "set cursorline", "set nocursorline", "tabclose", "tabnew", "tabnext", "tabprev", "tclose", "tnew", "tnext", "tprev", "w", "wq", "x"];
    assert(views(r@) =~= command_names());
    r
}

/// The description of a command, or the empty string for anything else.
pub fn description(cmd: &str) -> (r: &'static str)
    ensures
        r@ == command_description(cmd@),
{
    if str_eq(cmd, "fw") {
        "Save file"
    } else if str_eq(cmd, "fq") {
        "Close tab/quit"
    } else if str_eq(cmd, "fq!") {
        "Force close"
    } else if str_eq(cmd, "fx") {
        "Save and close"
    } else if str_eq(cmd, "bnew") {
        "New buffer"
    } else if str_eq(cmd, "buffer") {
        "Switch buffer by ID"
    } else if str_eq(cmd, "bk") {
        "Kill buffer"
    } else if str_eq(cmd, "bl") {
        "List buffers"
    } else if str_eq(cmd, "tnew") {
        "New tab"
    } else if str_eq(cmd, "tnext") {
        "Next tab"
    } else if str_eq(cmd, "tprev") {
        "Previous tab"
    } else if str_eq(cmd, "tclose") {
        "Close tab"
    } else if str_eq(cmd, "set cursorline") {
        "Highlight cursor line"
    } else if str_eq(cmd, "set nocursorline") {
        "Disable cursor highlight"
    } else if str_eq(cmd, "help") {
        "Show help"
    } else if str_eq(cmd, "w") {
        "Save (alias: fw)"
    } else if str_eq(cmd, "q") {
        "Close (alias: fq)"
    } else if str_eq(cmd, "q!") {
        "Force close (alias: fq!)"
    } else if str_eq(cmd, "wq") {
        "Save+close (alias: fx)"
    } else if str_eq(cmd, "x") {
        "Save+close (alias: fx)"
    } else if str_eq(cmd, "e") {
        "Open file in buffer"
    } else if str_eq(cmd, "kb") {
        "Kill buffer (alias: bk)"
    } else if str_eq(cmd, "ls") {
        "List buffers (alias: bl)"
    } else if str_eq(cmd, "tabnew") {
        "New tab (alias: tnew)"
    } else if str_eq(cmd, "tabnext") {
        "Next tab (alias: tnext)"
    } else if str_eq(cmd, "gt") {
        "Next tab (alias: tnext)"
    } else if str_eq(cmd, "tabprev") {
        "Prev tab (alias: tprev)"
    } else if str_eq(cmd, "gT") {
        "Prev tab (alias: tprev)"
    } else if str_eq(cmd, "tabclose") {
        "Close tab (alias: tclose)"
    } else {
        ""
    }
}

/// The commands that begin with `input`, in palette order.
pub fn filter_commands(input: &str) -> (r: Vec<&'static str>)
    ensures
        views(r@) == command_names().filter(begins_with(input@)),
{
    let all = all_commands();
    let ghost pred = begins_with(input@);
    let mut r: Vec<&'static str> = Vec::new();
    let mut i: usize = 0;
    while i < all.len()
        invariant
            i <= all@.len(),
            views(all@) == command_names(),
            pred == begins_with(input@),
            views(r@) == command_names().take(i as int).filter(pred),
        decreases all@.len() - i,
    {
        let ghost before = views(r@);
        let ghost t = command_names().take(i + 1);
        assert(t.drop_last() =~= command_names().take(i as int));
        assert(t.last() == all@[i as int]@);
        assert(t.filter(pred) == if pred(t.last()) {
            t.drop_last().filter(pred).push(t.last())
        } else {
            t.drop_last().filter(pred)
        }) by {
            reveal_with_fuel(Seq::<_>::filter, 1);
        }
        if starts_with(all[i], input) {
            r.push(all[i]);
            assert(views(r@) =~= before.push(all@[i as int]@));
        }
        i = i + 1;
    }
    assert(command_names().take(all@.len() as int) =~= command_names());
    r
}

proof fn reveal_command_names()
    ensures
        "bk"@ == seq!['b', 'k'],
        "bl"@ == seq!['b', 'l'],
        "bnew"@ == seq!['b', 'n', 'e', 'w'],
        "buffer"@ == seq!['b', 'u', 'f', 'f', 'e', 'r'],
        "e"@ == seq!['e'],
        "fq"@ == seq!['f', 'q'],
        "fq!"@ == seq!['f', 'q', '!'],
        "fw"@ == seq!['f', 'w'],
        "fx"@ == seq!['f', 'x'],
        "gT"@ == seq!['g', 'T'],
        "gt"@ == seq!['g', 't'],
        "help"@ == seq!['h', 'e', 'l', 'p'],
        "kb"@ == seq!['k', 'b'],
        "ls"@ == seq!['l', 's'],
        "q"@ == seq!['q'],
        "q!"@ == seq!['q', '!'],
        "set cursorline"@ == seq!['s', 'e', 't', ' ', 'c', 'u', 'r', 's', 'o', 'r', 'l', 'i', 'n', 'e'],
        "set nocursorline"@ == seq!['s', 'e', 't', ' ', 'n', 'o', 'c', 'u', 'r', 's', 'o', 'r', 'l', 'i', 'n', 'e'],
        "tabclose"@ == seq!['t', 'a', 'b', 'c', 'l', 'o', 's', 'e'],
        "tabnew"@ == seq!['t', 'a', 'b', 'n', 'e', 'w'],
        "tabnext"@ == seq!['t', 'a', 'b', 'n', 'e', 'x', 't'],
        "tabprev"@ == seq!['t', 'a', 'b', 'p', 'r', 'e', 'v'],
        "tclose"@ == seq!['t', 'c', 'l', 'o', 's', 'e'],
        "tnew"@ == seq!['t', 'n', 'e', 'w'],
        "tnext"@ == seq!['t', 'n', 'e', 'x', 't'],
        "tprev"@ == seq!['t', 'p', 'r', 'e', 'v'],
        "w"@ == seq!['w'],
        "wq"@ == seq!['w', 'q'],
        "x"@ == seq!['x'],
{
    reveal_strlit("bk");
    reveal_strlit("bl");
    reveal_strlit("bnew");
    reveal_strlit("buffer");
    reveal_strlit("e");
    reveal_strlit("fq");
    reveal_strlit("fq!");
    reveal_strlit("fw");
    reveal_strlit("fx");
    reveal_strlit("gT");
    reveal_strlit("gt");
    reveal_strlit("help");
    reveal_strlit("kb");
    reveal_strlit("ls");
    reveal_strlit("q");
    reveal_strlit("q!");
    reveal_strlit("set cursorline");
    reveal_strlit("set nocursorline");
    reveal_strlit("tabclose");
    reveal_strlit("tabnew");
    reveal_strlit("tabnext");
    reveal_strlit("tabprev");
    reveal_strlit("tclose");
    reveal_strlit("tnew");
    reveal_strlit("tnext");
    reveal_strlit("tprev");
    reveal_strlit("w");
    reveal_strlit("wq");
    reveal_strlit("x");
}

proof fn lemma_seq_lt_trans(a: Seq<char>, b: Seq<char>, c: Seq<char>)
    requires
        seq_lt(a, b),
        seq_lt(b, c),
    ensures
        seq_lt(a, c),
    decreases a.len(),
{
    if a.len() > 0 && b.len() > 0 && c.len() > 0 && a[0] == b[0] && b[0] == c[0] {
        lemma_seq_lt_trans(a.drop_first(), b.drop_first(), c.drop_first());
    }
}

/// The palette lists the commands in strictly ascending order, so none twice.
pub proof fn lemma_commands_sorted()
    ensures
        forall|i: int, j: int|
            0 <= i < j < command_names().len() ==> seq_lt(#[trigger] command_names()[i], #[trigger] command_names()[j]),
{
    reveal_command_names();
    let s = command_names();
    assert forall|i: int| 0 <= i < s.len() - 1 implies seq_lt(#[trigger] s[i], s[i + 1]) by {
        reveal_with_fuel(seq_lt, 20);
    }
    assert forall|i: int, j: int| 0 <= i < j < s.len() implies seq_lt(#[trigger] s[i], #[trigger] s[j]) by {
        lemma_sorted_upto(s, i, j);
    }
}

proof fn lemma_sorted_upto(s: Seq<Seq<char>>, i: int, j: int)
    requires
        0 <= i < j < s.len(),
        forall|k: int| 0 <= k < s.len() - 1 ==> seq_lt(#[trigger] s[k], s[k + 1]),
    ensures
        seq_lt(s[i], s[j]),
    decreases j - i,
{
    if j > i + 1 {
        lemma_sorted_upto(s, i, j - 1);
        assert(seq_lt(s[j - 1], s[j]));
        lemma_seq_lt_trans(s[i], s[j - 1], s[j]);
    }
}

/// A string has a description exactly when it is a command: the description of anything
/// else (an empty string, another case, a command with an argument) is empty.
pub proof fn lemma_described_iff_command(c: Seq<char>)
    ensures
        command_description(c).len() > 0 <==> command_names().contains(c),
{
    reveal_command_names();
    lemma_every_command_described();
    reveal_strlit("");
    if command_names().contains(c) {
        let i = choose|i: int| 0 <= i < command_names().len() && command_names()[i] == c;
        assert(command_description(command_names()[i]).len() > 0);
    }
    if command_description(c).len() > 0 {
        if c == "bk"@ {
            assert(command_names()[0] == c);
        } else if c == "bl"@ {
            assert(command_names()[1] == c);
        } else if c == "bnew"@ {
            assert(command_names()[2] == c);
        } else if c == "buffer"@ {
            assert(command_names()[3] == c);
        } else if c == "e"@ {
            assert(command_names()[4] == c);
        } else if c == "fq"@ {
            assert(command_names()[5] == c);
        } else if c == "fq!"@ {
            assert(command_names()[6] == c);
        } else if c == "fw"@ {
            assert(command_names()[7] == c);
        } else if c == "fx"@ {
            assert(command_names()[8] == c);
        } else if c == "gT"@ {
            assert(command_names()[9] == c);
        } else if c == "gt"@ {
            assert(command_names()[10] == c);
        } else if c == "help"@ {
            assert(command_names()[11] == c);
        } else if c == "kb"@ {
            assert(command_names()[12] == c);
        } else if c == "ls"@ {
            assert(command_names()[13] == c);
        } else if c == "q"@ {
            assert(command_names()[14] == c);
        } else if c == "q!"@ {
            assert(command_names()[15] == c);
        } else if c == "set cursorline"@ {
            assert(command_names()[16] == c);
        } else if c == "set nocursorline"@ {
            assert(command_names()[17] == c);
        } else if c == "tabclose"@ {
            assert(command_names()[18] == c);
        } else if c == "tabnew"@ {
            assert(command_names()[19] == c);
        } else if c == "tabnext"@ {
            assert(command_names()[20] == c);
        } else if c == "tabprev"@ {
            assert(command_names()[21] == c);
        } else if c == "tclose"@ {
            assert(command_names()[22] == c);
        } else if c == "tnew"@ {
            assert(command_names()[23] == c);
        } else if c == "tnext"@ {
            assert(command_names()[24] == c);
        } else if c == "tprev"@ {
            assert(command_names()[25] == c);
        } else if c == "w"@ {
            assert(command_names()[26] == c);
        } else if c == "wq"@ {
            assert(command_names()[27] == c);
        } else if c == "x"@ {
            assert(command_names()[28] == c);
        } else {
            assert(command_description(c) == ""@);
        }
    }
}

/// Keeping the elements of a strictly ascending sequence that pass a test leaves it
/// strictly ascending.
proof fn lemma_filter_ascending(s: Seq<Seq<char>>, p: spec_fn(Seq<char>) -> bool)
    requires
        forall|i: int, j: int| 0 <= i < j < s.len() ==> seq_lt(#[trigger] s[i], #[trigger] s[j]),
    ensures
        forall|i: int, j: int| 0 <= i < j < s.filter(p).len() ==> seq_lt(#[trigger] s.filter(p)[i], #[trigger] s.filter(p)[j]),
    decreases s.len(),
{
    if s.len() > 0 {
        let d = s.drop_last();
        let x = s.last();
        assert(d.push(x) =~= s);
        d.lemma_filter_push(x, p);
        lemma_filter_ascending(d, p);
        let f = d.filter(p);
        if p(x) {
            assert forall|i: int, j: int| 0 <= i < j < s.filter(p).len() implies seq_lt(
                #[trigger] s.filter(p)[i],
                #[trigger] s.filter(p)[j],
            ) by {
                if j == f.len() {
                    assert(s.filter(p)[i] == f[i]);
                    assert(f.contains(f[i]));
                    d.lemma_filter_contains_rev(p, f[i]);
                    let k = choose|k: int| 0 <= k < d.len() && d[k] == f[i];
                    assert(s[k] == d[k]);
                    assert(seq_lt(s[k], s[s.len() - 1]));
                } else {
                    assert(s.filter(p)[i] == f[i]);
                    assert(s.filter(p)[j] == f[j]);
                }
            }
        }
    }
}

/// The palette's filter lists the commands that begin with `input`, all of them and
/// nothing else, in strictly ascending order (so none twice).
pub proof fn lemma_filter_sorted_and_complete(input: Seq<char>)
    ensures
        forall|i: int, j: int|
            0 <= i < j < command_names().filter(begins_with(input)).len() ==> seq_lt(
                #[trigger] command_names().filter(begins_with(input))[i],
                #[trigger] command_names().filter(begins_with(input))[j],
            ),
        forall|x: Seq<char>|
            #[trigger] command_names().filter(begins_with(input)).contains(x) <==> command_names().contains(x)
                && begins_with(input)(x),
{
    let s = command_names();
    let p = begins_with(input);
    lemma_commands_sorted();
    lemma_filter_ascending(s, p);
    assert forall|x: Seq<char>| #[trigger] s.filter(p).contains(x) <==> s.contains(x) && p(x) by {
        if s.filter(p).contains(x) {
            s.lemma_filter_contains_rev(p, x);
            let i = choose|i: int| 0 <= i < s.filter(p).len() && s.filter(p)[i] == x;
            s.lemma_filter_pred(p, i);
        }
        if s.contains(x) && p(x) {
            let i = choose|i: int| 0 <= i < s.len() && s[i] == x;
            s.lemma_filter_contains(p, i);
        }
    }
}

/// Filtering with a stricter test after a looser one is filtering with the stricter one.
proof fn lemma_filter_twice(s: Seq<Seq<char>>, loose: spec_fn(Seq<char>) -> bool, strict: spec_fn(Seq<char>) -> bool)
    requires
        forall|x: Seq<char>| #[trigger] strict(x) ==> loose(x),
    ensures
        s.filter(strict) == s.filter(loose).filter(strict),
    decreases s.len(),
{
    if s.len() > 0 {
        let d = s.drop_last();
        let x = s.last();
        assert(d.push(x) =~= s);
        lemma_filter_twice(d, loose, strict);
        d.lemma_filter_push(x, strict);
        d.lemma_filter_push(x, loose);
        d.filter(loose).lemma_filter_push(x, strict);
    } else {
        assert(s.filter(strict) =~= Seq::<Seq<char>>::empty()) by {
            reveal_with_fuel(Seq::<_>::filter, 1);
        }
        assert(s.filter(loose) =~= Seq::<Seq<char>>::empty()) by {
            reveal_with_fuel(Seq::<_>::filter, 1);
        }
        assert(s.filter(loose).filter(strict) =~= Seq::<Seq<char>>::empty()) by {
            reveal_with_fuel(Seq::<_>::filter, 1);
        }
    }
}

/// Typing more never adds suggestions: when `q` begins with `p`, the commands offered
/// for `q` are those offered for `p` that begin with `q`, in the same order. And every
/// command is offered for itself.
pub proof fn lemma_filter_narrows(p: Seq<char>, q: Seq<char>)
    requires
        begins_with(p)(q),
    ensures
        command_names().filter(begins_with(q)) == command_names().filter(begins_with(p)).filter(begins_with(q)),
        forall|i: int| 0 <= i < command_names().len() ==> #[trigger] command_names().filter(begins_with(command_names()[i])).contains(command_names()[i]),
{
    assert forall|x: Seq<char>| #[trigger] begins_with(q)(x) implies begins_with(p)(x) by {
        assert(x.take(p.len() as int) =~= x.take(q.len() as int).take(p.len() as int));
        assert(q.take(p.len() as int) == p);
    }
    lemma_filter_twice(command_names(), begins_with(p), begins_with(q));
    assert forall|i: int| 0 <= i < command_names().len() implies #[trigger] command_names().filter(
        begins_with(command_names()[i]),
    ).contains(command_names()[i]) by {
        let c = command_names()[i];
        assert(c.take(c.len() as int) =~= c);
        command_names().lemma_filter_contains(begins_with(c), i);
    }
}

/// Every command that the palette lists has a description.
pub proof fn lemma_every_command_described()
    ensures
        forall|i: int| 0 <= i < command_names().len() ==> #[trigger] command_description(command_names()[i]).len() > 0,
{
    reveal_command_names();
    reveal_strlit("Save file");
    reveal_strlit("Close tab/quit");
    reveal_strlit("Force close");
    reveal_strlit("Save and close");
    reveal_strlit("New buffer");
    reveal_strlit("Switch buffer by ID");
    reveal_strlit("Kill buffer");
    reveal_strlit("List buffers");
    reveal_strlit("New tab");
    reveal_strlit("Next tab");
    reveal_strlit("Previous tab");
    reveal_strlit("Close tab");
    reveal_strlit("Highlight cursor line");
    reveal_strlit("Disable cursor highlight");
    reveal_strlit("Show help");
    reveal_strlit("Save (alias: fw)");
    reveal_strlit("Close (alias: fq)");
    reveal_strlit("Force close (alias: fq!)");
    reveal_strlit("Save+close (alias: fx)");
    reveal_strlit("Open file in buffer");
    reveal_strlit("Kill buffer (alias: bk)");
    reveal_strlit("List buffers (alias: bl)");
    reveal_strlit("New tab (alias: tnew)");
    reveal_strlit("Next tab (alias: tnext)");
    reveal_strlit("Prev tab (alias: tprev)");
    reveal_strlit("Close tab (alias: tclose)");
}

} // verus!
