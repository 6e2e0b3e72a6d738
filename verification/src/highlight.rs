//! Syntax highlighting comes from syntect. Verus sees its syntax sets, themes and
//! highlighters only as opaque values. The library only ever uses the syntaxes and
//! themes that syntect ships (`Syntaxes` and `Themes` can hold nothing else), so what a
//! highlighter gives for a line is a function of the syntax's name, the theme's key and
//! the lines fed to it so far: `highlighted` names it.
use vstd::prelude::*;
use syntect::easy::HighlightLines;
use syntect::highlighting::{Theme, ThemeSet};
use syntect::parsing::{SyntaxReference, SyntaxSet};

verus! {

#[verifier::external_type_specification]
#[verifier::external_body]
pub struct ExSyntaxSet(SyntaxSet);

#[verifier::external_type_specification]
#[verifier::external_body]
pub struct ExSyntaxReference(SyntaxReference);

#[verifier::external_type_specification]
#[verifier::external_body]
pub struct ExThemeSet(ThemeSet);

#[verifier::external_type_specification]
#[verifier::external_body]
pub struct ExTheme(Theme);

#[verifier::external_type_specification]
#[verifier::external_body]
pub struct ExHighlightLines<'a>(HighlightLines<'a>);

#[verifier::external_type_specification]
#[verifier::external_body]
pub struct ExSyntectError(syntect::Error);

/// A foreground colour: red, green, blue.
pub type Rgb = (u8, u8, u8);

/// The text of the pieces of a highlighted line, put together in order.
pub open spec fn pieces_text(pieces: Seq<(Rgb, String)>) -> Seq<char>
    decreases pieces.len(),
{
    if pieces.len() == 0 {
        Seq::empty()
    } else {
        pieces_text(pieces.drop_last()) + pieces.last().1@
    }
}

/// The colour of each character of a highlighted line, piece by piece.
pub open spec fn piece_colors(pieces: Seq<(Rgb, String)>) -> Seq<Rgb>
    decreases pieces.len(),
{
    if pieces.len() == 0 {
        Seq::empty()
    } else {
        piece_colors(pieces.drop_last()) + Seq::new(pieces.last().1@.len(), |i: int| pieces.last().0)
    }
}

/// Whether syntect's default syntaxes hold one named `name`.
pub uninterp spec fn has_syntax(name: Seq<char>) -> bool;

/// Whether syntect's default themes hold one under the key `key`.
pub uninterp spec fn has_theme(key: Seq<char>) -> bool;

/// What a fresh highlighter for the default syntax named `syntax` and the default theme
/// under `theme` gives for the last of `lines` when fed `lines` in order: the colour of
/// each character of that line, or `None` where syntect reports an error for it.
pub uninterp spec fn highlighted(syntax: Seq<char>, theme: Seq<char>, lines: Seq<Seq<char>>) -> Option<Seq<Rgb>>;

/// The syntaxes that syntect ships. Only `default_syntaxes` makes one (its field is
/// not visible outside the crate).
pub struct Syntaxes {
    pub(crate) set: SyntaxSet,
}

/// The colour themes that syntect ships. Only `default_themes` makes one.
pub struct Themes {
    pub(crate) set: ThemeSet,
}

/// A syntax of `Syntaxes`, with the name it was found under.
pub struct Syntax<'a> {
    pub(crate) r: &'a SyntaxReference,
    pub name: Ghost<Seq<char>>,
}

/// A theme of `Themes`, with the key it was found under.
pub struct ThemeChoice<'a> {
    pub(crate) r: &'a Theme,
    pub key: Ghost<Seq<char>>,
}

/// A highlighter: the syntax and theme it was made for, and the lines fed to it so far.
pub struct Highlighter<'a> {
    pub(crate) lines: HighlightLines<'a>,
    pub(crate) set: &'a SyntaxSet,
    pub syntax: Ghost<Seq<char>>,
    pub theme: Ghost<Seq<char>>,
    pub fed: Ghost<Seq<Seq<char>>>,
}

impl Syntaxes {
    /// The syntax set itself, to look a file's syntax up by its name and first line.
    pub fn set(&self) -> &SyntaxSet {
        &self.set
    }
}

/// `SyntaxSet::load_defaults_newlines`: the syntaxes that syntect ships, for lines
/// that keep their line break.
#[verifier::external_body]
pub(crate) fn default_syntaxes() -> (ss: Syntaxes) {
    Syntaxes { set: SyntaxSet::load_defaults_newlines() }
}

/// `ThemeSet::load_defaults`: the themes that syntect ships.
#[verifier::external_body]
pub(crate) fn default_themes() -> (ts: Themes) {
    Themes { set: ThemeSet::load_defaults() }
}

/// `SyntaxSet::find_syntax_by_name`: the syntax named `name`, if there is one.
#[verifier::external_body]
pub(crate) fn find_syntax<'a>(ss: &'a Syntaxes, name: &str) -> (r: Option<Syntax<'a>>)
    ensures
        r is Some <==> has_syntax(name@),
        r matches Some(x) ==> x.name@ == name@,
{
    match ss.set.find_syntax_by_name(name) {
        Some(r) => Some(Syntax { r, name: Ghost(name@) }),
        None => None,
    }
}

/// `ThemeSet::themes`, looked up: the theme stored under `key`, if there is one.
#[verifier::external_body]
pub(crate) fn find_theme<'a>(ts: &'a Themes, key: &str) -> (r: Option<ThemeChoice<'a>>)
    ensures
        r is Some <==> has_theme(key@),
        r matches Some(x) ==> x.key@ == key@,
{
    match ts.set.themes.get(key) {
        Some(r) => Some(ThemeChoice { r, key: Ghost(key@) }),
        None => None,
    }
}

/// `HighlightLines::new`: a highlighter for `syntax` in `theme`, at the start of a file.
#[verifier::external_body]
pub(crate) fn new_highlighter<'a>(ss: &'a Syntaxes, syntax: &Syntax<'a>, theme: &ThemeChoice<'a>) -> (h: Highlighter<'a>)
    ensures
        h.syntax@ == syntax.name@,
        h.theme@ == theme.key@,
        h.fed@ == Seq::<Seq<char>>::empty(),
{
    Highlighter { lines: HighlightLines::new(syntax.r, theme.r), set: &ss.set, syntax: syntax.name, theme: theme.key, fed: Ghost(Seq::empty()) }
}

/// `HighlightLines::highlight_line`: highlights the next line of the file. On success
/// the line comes back cut into pieces, each with its foreground colour; syntect
/// documents that the pieces put together make the line. Whether it succeeds and the
/// colours are what `highlighted` gives for the lines fed so far and this one.
#[verifier::external_body]
pub(crate) fn highlight_next_line(h: &mut Highlighter, line: &str) -> (r: Result<Vec<(Rgb, String)>, syntect::Error>)
    ensures
        final(h).syntax == old(h).syntax,
        final(h).theme == old(h).theme,
        final(h).fed@ == old(h).fed@.push(line@),
        r is Ok <==> highlighted(old(h).syntax@, old(h).theme@, old(h).fed@.push(line@)) is Some,
        r matches Ok(pieces) ==> pieces_text(pieces@) == line@ && highlighted(old(h).syntax@, old(h).theme@, old(h).fed@.push(line@))
            == Some(piece_colors(pieces@)),
{
    match h.lines.highlight_line(line, h.set) {
        Ok(ranges) => Ok(ranges.into_iter().map(|(st, s)| ((st.foreground.r, st.foreground.g, st.foreground.b), s.to_string())).collect()),
        Err(e) => Err(e),
    }
}

} // verus!
