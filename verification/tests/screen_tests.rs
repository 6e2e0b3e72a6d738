use rvim::editor::App;
use rvim::mode::Mode;
use rvim::screen::{line_colors, ScreenRow};

const THEME: &str = "base16-ocean.dark";

fn rows_of(app: &App, width: u16, height: u16) -> Vec<ScreenRow> {
    app.text_rows("Plain Text", THEME, width, height).unwrap()
}

fn shown(rows: &[ScreenRow]) -> Vec<(usize, usize, String)> {
    rows.iter().map(|r| (r.line, r.wrap, r.cells.iter().map(|c| c.ch).collect())).collect()
}

#[test]
fn colours_follow_the_pieces() {
    let pieces = vec![((1, 2, 3), "ab".to_string()), ((4, 5, 6), "c\n".to_string()), ((7, 8, 9), String::new())];
    assert_eq!(line_colors(&pieces), vec![(1, 2, 3), (1, 2, 3), (4, 5, 6), (4, 5, 6)]);
    assert_eq!(line_colors(&vec![]), vec![]);
}

#[test]
fn long_lines_wrap_into_rows() {
    let app = App::new(None, "hello world\nab\n");
    let rows = rows_of(&app, 4, 10);
    assert_eq!(
        shown(&rows),
        vec![
            (0, 0, "hell".to_string()),
            (0, 1, "o wo".to_string()),
            (0, 2, "rld".to_string()),
            (1, 0, "ab".to_string()),
            (2, 0, String::new()),
        ]
    );
    assert!(rows.iter().all(|r| !r.cursorline));
    assert!(rows.iter().all(|r| r.cells.iter().all(|c| !c.selected)));
    // The line break keeps the colour of its line but is not shown.
    assert_eq!(rows[4].cells.len(), 0);
}

#[test]
fn scrolled_view_starts_inside_a_line() {
    let mut app = App::new(None, "hello world\nab\n");
    app.tabs[0].offset = 2;
    assert_eq!(app.view_start(4), (0, 2));
    let rows = rows_of(&app, 4, 10);
    assert_eq!(
        shown(&rows),
        vec![(0, 2, "rld".to_string()), (1, 0, "ab".to_string()), (2, 0, String::new())]
    );
    app.tabs[0].offset = 9;
    assert_eq!(app.view_start(4), (3, 0));
    assert!(rows_of(&app, 4, 10).is_empty());
}

#[test]
fn rows_stop_when_the_screen_is_full() {
    let app = App::new(None, "hello world\nab\n");
    // 5 rows high: tab bar, status line and command line leave 2 rows for text.
    let rows = rows_of(&app, 4, 5);
    assert_eq!(shown(&rows), vec![(0, 0, "hell".to_string()), (0, 1, "o wo".to_string())]);
    let rows = rows_of(&app, 80, 3);
    assert!(rows.is_empty());
}

#[test]
fn cursor_line_is_marked() {
    let mut app = App::new(None, "one\ntwo\nthree");
    app.tabs[0].cy = 1;
    assert!(rows_of(&app, 80, 10).iter().all(|r| !r.cursorline));
    app.tabs[0].cursorline = true;
    let rows = rows_of(&app, 80, 10);
    let marked: Vec<usize> = rows.iter().filter(|r| r.cursorline).map(|r| r.line).collect();
    assert_eq!(marked, vec![1]);
}

#[test]
fn selection_is_marked_per_character() {
    let mut app = App::new(None, "abcdef\nxy");
    app.tabs[0].mode = Mode::Visual;
    app.tabs[0].visual_anchor = (0, 1);
    app.tabs[0].cx = 3;
    let rows = rows_of(&app, 80, 10);
    let sel: Vec<bool> = rows[0].cells.iter().map(|c| c.selected).collect();
    assert_eq!(sel, vec![false, true, true, true, false, false]);
    assert!(rows[1].cells.iter().all(|c| !c.selected));
}

#[test]
fn highlighting_colours_the_characters() {
    let app = App::new(Some("main.rs".to_string()), "fn main() {}\n");
    let rows = app.text_rows("Rust", THEME, 80, 10).unwrap();
    assert_eq!(shown(&rows)[0], (0, 0, "fn main() {}".to_string()));
    // The keyword and the name are coloured differently.
    assert_ne!(rows[0].cells[0].fg, rows[0].cells[3].fg);
    assert_eq!(rows[0].cells[0].fg, rows[0].cells[1].fg);
}

#[test]
fn rows_of_one_line() {
    let app = App::new(None, "abcdefghij");
    let colors: Vec<(u8, u8, u8)> = (0..10).map(|i| (i as u8, 0, 0)).collect();
    let rows = app.line_rows(0, 1, &colors, 3, 2);
    assert_eq!(shown(&rows), vec![(0, 1, "def".to_string()), (0, 2, "ghi".to_string())]);
    assert_eq!(rows[1].cells[2].fg, (8, 0, 0));
    let rows = app.line_rows(0, 3, &colors, 3, 9);
    assert_eq!(shown(&rows), vec![(0, 3, "j".to_string())]);
    assert!(app.line_rows(0, 4, &colors, 3, 9).is_empty());
}

#[test]
fn what_a_frame_needs() {
    let app = App::new(None, "text");
    assert!(app.can_draw(80, 24));
    assert!(!app.can_draw(80, 2));
    // With no columns, a line with characters cannot be cut into rows.
    assert!(!app.can_draw(0, 24));
    let app = App::new(None, "\n\n");
    assert!(app.can_draw(0, 24));
    let mut app = App::new(None, "ab");
    app.tabs[0].mode = Mode::Visual;
    app.tabs[0].visual_anchor = (5, 0);
    assert!(!app.can_draw(80, 24));
    app.tabs[0].visual_anchor = (0, 0);
    assert!(app.can_draw(80, 24));
    app.tabs[0].cx = usize::MAX;
    assert!(!app.can_draw(80, 24));
}

#[test]
fn tab_bar_labels() {
    let mut app = App::new(Some("a_rather_long_file_name.rs".to_string()), "x");
    app.new_tab(None, "");
    app.buffers.get_mut(&1).unwrap().dirty = true;
    let bar = app.tab_bar();
    assert_eq!(bar, vec![("g_file_name.rs", false, false), ("[No Name]", true, true)]);
    app.prev_tab();
    assert_eq!(app.tab_bar()[0].2, true);
    assert_eq!(app.tab_bar()[1].2, false);
}

#[test]
fn unknown_syntax_or_theme() {
    let app = App::new(None, "x");
    assert!(app.text_rows("No Such Syntax", THEME, 80, 10).is_none());
    assert!(app.text_rows("Plain Text", "no such theme", 80, 10).is_none());
    assert!(app.text_rows("Rust", "InspiredGitHub", 80, 10).is_some());
}

#[test]
fn lines_above_the_view_are_highlighted_first() {
    // Line 1 lies inside a block comment opened on line 0.
    let mut app = App::new(Some("a.rs".to_string()), "/*\nlet x = 1;\n*/\nlet y = 2;\n");
    let whole = app.text_rows("Rust", THEME, 80, 10).unwrap();
    app.tabs[0].offset = 1;
    let scrolled = app.text_rows("Rust", THEME, 80, 10).unwrap();
    assert_eq!(scrolled[0].line, 1);
    let colours = |r: &ScreenRow| r.cells.iter().map(|c| c.fg).collect::<Vec<_>>();
    assert_eq!(colours(&scrolled[0]), colours(&whole[1]));
    // The same text outside the comment is coloured differently.
    assert_ne!(colours(&whole[1]), colours(&whole[3]));
}
