//! What a command line means: the command it names and its argument.
use vstd::prelude::*;
use crate::strutil::{str_eq, strip_prefix, strip_prefix_seq, str_to_string};

verus! {

/// A command line, read.
pub enum Cmd {
    /// `q`, `q!`, `fq`, `fq!`: close a temporary view, else the tab.
    Quit,
    /// `w`, `fw`: save.
    Write,
    /// `wq`, `x`, `fx`: save and close the tab.
    WriteClose,
    /// `help`.
    Help,
    /// `tabnew`, `tnew`: a new tab on an empty buffer.
    TabNew,
    /// `tabnext`, `gt`, `tnext`.
    TabNext,
    /// `tabprev`, `gT`, `tprev`.
    TabPrev,
    /// `tabclose`, `tclose`.
    TabClose,
    /// `bnew`: a new empty buffer in this tab.
    BufNew,
    /// `kb`, `bk`: kill the buffer of this tab.
    KillCurrent,
    /// `ls`, `bl`: the buffer list.
    List,
    /// `set cursorline` (true) and `set nocursorline` (false).
    CursorLine(bool),
    /// `w <name>`, `fw <name>`: save under a new name.
    WriteAs(Seq<char>),
    /// `tabnew <file>`, `tnew <file>`.
    TabNewFile(Seq<char>),
    /// `e <file>`.
    Edit(Seq<char>),
    /// `buffer <id>`, with the text after `buffer `.
    SwitchTo(Seq<char>),
    /// `kb <id>`, `bk <id>`, with the text after the command and its space.
    KillId(Seq<char>),
    /// Anything else.
    Unknown,
}

/// The command that the (trimmed) command line `c` names.
pub open spec fn parse_cmd(c: Seq<char>) -> Cmd {
    if c == "q"@ || c == "q!"@ || c == "fq"@ || c == "fq!"@ {
        Cmd::Quit
    } else if c == "w"@ || c == "fw"@ {
        Cmd::Write
    } else if c == "wq"@ || c == "x"@ || c == "fx"@ {
        Cmd::WriteClose
    } else if c == "help"@ {
        Cmd::Help
    } else if c == "tabnew"@ || c == "tnew"@ {
        Cmd::TabNew
    } else if c == "tabnext"@ || c == "gt"@ || c == "tnext"@ {
        Cmd::TabNext
    } else if c == "tabprev"@ || c == "gT"@ || c == "tprev"@ {
        Cmd::TabPrev
    } else if c == "tabclose"@ || c == "tclose"@ {
        Cmd::TabClose
    } else if c == "bnew"@ {
        Cmd::BufNew
    } else if c == "kb"@ || c == "bk"@ {
        Cmd::KillCurrent
    } else if c == "ls"@ || c == "bl"@ {
        Cmd::List
    } else if c == "set cursorline"@ {
        Cmd::CursorLine(true)
    } else if c == "set nocursorline"@ {
        Cmd::CursorLine(false)
    } else if strip_prefix_seq(c, "w "@) is Some {
        Cmd::WriteAs(strip_prefix_seq(c, "w "@)->0)
    } else if strip_prefix_seq(c, "fw "@) is Some {
        Cmd::WriteAs(strip_prefix_seq(c, "fw "@)->0)
    } else if strip_prefix_seq(c, "tabnew "@) is Some {
        Cmd::TabNewFile(strip_prefix_seq(c, "tabnew "@)->0)
    } else if strip_prefix_seq(c, "tnew "@) is Some {
        Cmd::TabNewFile(strip_prefix_seq(c, "tnew "@)->0)
    } else if strip_prefix_seq(c, "e "@) is Some {
        Cmd::Edit(strip_prefix_seq(c, "e "@)->0)
    } else if strip_prefix_seq(c, "buffer "@) is Some {
        Cmd::SwitchTo(strip_prefix_seq(c, "buffer "@)->0)
    } else if strip_prefix_seq(c, "kb "@) is Some {
        Cmd::KillId(strip_prefix_seq(c, "kb "@)->0)
    } else if strip_prefix_seq(c, "bk "@) is Some {
        Cmd::KillId(strip_prefix_seq(c, "bk "@)->0)
    } else {
        Cmd::Unknown
    }
}

/// A command line, read, with its argument as a string.
pub enum Command {
    Quit,
    Write,
    WriteClose,
    Help,
    TabNew,
    TabNext,
    TabPrev,
    TabClose,
    BufNew,
    KillCurrent,
    List,
    CursorLine(bool),
    WriteAs(String),
    TabNewFile(String),
    Edit(String),
    SwitchTo(String),
    KillId(String),
    Unknown,
}

impl View for Command {
    type V = Cmd;

    open spec fn view(&self) -> Cmd {
        match self {
            Command::Quit => Cmd::Quit,
            Command::Write => Cmd::Write,
            Command::WriteClose => Cmd::WriteClose,
            Command::Help => Cmd::Help,
            Command::TabNew => Cmd::TabNew,
            Command::TabNext => Cmd::TabNext,
            Command::TabPrev => Cmd::TabPrev,
            Command::TabClose => Cmd::TabClose,
            Command::BufNew => Cmd::BufNew,
            Command::KillCurrent => Cmd::KillCurrent,
            Command::List => Cmd::List,
            Command::CursorLine(on) => Cmd::CursorLine(*on),
            Command::WriteAs(s) => Cmd::WriteAs(s@),
            Command::TabNewFile(s) => Cmd::TabNewFile(s@),
            Command::Edit(s) => Cmd::Edit(s@),
            Command::SwitchTo(s) => Cmd::SwitchTo(s@),
            Command::KillId(s) => Cmd::KillId(s@),
            Command::Unknown => Cmd::Unknown,
        }
    }
}

/// Reads the (trimmed) command line `c`.
pub fn parse_command(c: &str) -> (r: Command)
    ensures
        r@ == parse_cmd(c@),
{
    if str_eq(c, "q") || str_eq(c, "q!") || str_eq(c, "fq") || str_eq(c, "fq!") {
        Command::Quit
    } else if str_eq(c, "w") || str_eq(c, "fw") {
        Command::Write
    } else if str_eq(c, "wq") || str_eq(c, "x") || str_eq(c, "fx") {
        Command::WriteClose
    } else if str_eq(c, "help") {
        Command::Help
    } else if str_eq(c, "tabnew") || str_eq(c, "tnew") {
        Command::TabNew
    } else if str_eq(c, "tabnext") || str_eq(c, "gt") || str_eq(c, "tnext") {
        Command::TabNext
    } else if str_eq(c, "tabprev") || str_eq(c, "gT") || str_eq(c, "tprev") {
        Command::TabPrev
    } else if str_eq(c, "tabclose") || str_eq(c, "tclose") {
        Command::TabClose
    } else if str_eq(c, "bnew") {
        Command::BufNew
    } else if str_eq(c, "kb") || str_eq(c, "bk") {
        Command::KillCurrent
    } else if str_eq(c, "ls") || str_eq(c, "bl") {
        Command::List
    } else if str_eq(c, "set cursorline") {
        Command::CursorLine(true)
    } else if str_eq(c, "set nocursorline") {
        Command::CursorLine(false)
    } else if let Some(name) = strip_prefix(c, "w ") {
        Command::WriteAs(str_to_string(name))
    } else if let Some(name) = strip_prefix(c, "fw ") {
        Command::WriteAs(str_to_string(name))
    } else if let Some(name) = strip_prefix(c, "tabnew ") {
        Command::TabNewFile(str_to_string(name))
    } else if let Some(name) = strip_prefix(c, "tnew ") {
        Command::TabNewFile(str_to_string(name))
    } else if let Some(name) = strip_prefix(c, "e ") {
        Command::Edit(str_to_string(name))
    } else if let Some(arg) = strip_prefix(c, "buffer ") {
        Command::SwitchTo(str_to_string(arg))
    } else if let Some(arg) = strip_prefix(c, "kb ") {
        Command::KillId(str_to_string(arg))
    } else if let Some(arg) = strip_prefix(c, "bk ") {
        Command::KillId(str_to_string(arg))
    } else {
        Command::Unknown
    }
}

} // verus!
