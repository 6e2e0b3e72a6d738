use rvim::editor::{App, Buffer, Tab};
use rvim::mode::{Event, KeyCode, KeyEvent, Mode, OpenTarget, Request};
use rvim::ops::BufferOp;

fn key(code: KeyCode) -> Event {
    Event::Key(KeyEvent { code, ctrl: false, other_modifiers: false })
}

fn ch(c: char) -> Event {
    key(KeyCode::Char(c))
}

fn active_text(app: &App) -> String {
    app.buf().rope.to_string()
}

fn press(app: &mut App, ev: Event) -> Request {
    app.handle_event(ev)
}

fn command(app: &mut App, cmd: &str) -> Request {
    press(app, ch(':'));
    for c in cmd.chars() {
        press(app, ch(c));
    }
    press(app, key(KeyCode::Enter))
}

#[test]
fn new_app_has_one_buffer_and_tab() {
    let app = App::new(Some("a.txt".to_string()), "hello\nworld");
    assert_eq!(app.buffers.len(), 1);
    assert_eq!(app.buffers[&0].id, 0);
    assert_eq!(app.tabs.len(), 1);
    assert_eq!(app.active_tab, 0);
    assert_eq!(app.next_buf_id, 1);
    assert!(!app.quit);
    assert_eq!(app.buf().name(), "a.txt");
    assert_eq!(app.line_count(), 2);
    assert_eq!(app.tab().mode, Mode::Normal);
}

#[test]
fn buffer_basics() {
    let b = Buffer::new(3, None, "x");
    assert_eq!(b.id, 3);
    assert_eq!(b.name(), "[No Name]");
    assert!(!b.dirty && !b.crashed);
    let t = Tab::new(3);
    assert_eq!((t.buffer_id, t.cx, t.cy, t.offset), (3, 0, 0, 0));
    assert_eq!(t.mode, Mode::Normal);
    assert!(t.prev_view.is_none() && t.pending_op.is_none() && !t.cursorline);
}

#[test]
fn line_breaks_as_the_rope_counts_them() {
    let app = App::new(None, "a\r\nb\rc\u{2028}d\n");
    assert_eq!(app.line_count(), 5);
    let app = App::new(None, "");
    assert_eq!(app.line_count(), 1);
}

#[test]
fn normal_mode_motions() {
    let mut app = App::new(None, "abc\nde\n\nlonger line");
    press(&mut app, ch('l'));
    press(&mut app, ch('l'));
    press(&mut app, ch('l'));
    assert_eq!(app.tab().cx, 2);
    press(&mut app, ch('j'));
    assert_eq!(app.tab().cy, 1);
    press(&mut app, key(KeyCode::Down));
    press(&mut app, key(KeyCode::Down));
    press(&mut app, key(KeyCode::Down));
    assert_eq!(app.tab().cy, 3);
    press(&mut app, ch('$'));
    assert_eq!(app.tab().cx, 10);
    press(&mut app, ch('0'));
    assert_eq!(app.tab().cx, 0);
    press(&mut app, ch('h'));
    assert_eq!(app.tab().cx, 0);
    press(&mut app, ch('g'));
    assert_eq!(app.tab().cy, 0);
    press(&mut app, ch('G'));
    assert_eq!(app.tab().cy, 3);
    press(&mut app, ch('k'));
    assert_eq!(app.tab().cy, 2);
    press(&mut app, Event::Other);
    assert_eq!(app.tab().cy, 2);
}

#[test]
fn word_motions() {
    let mut app = App::new(None, "one two  three\n");
    press(&mut app, ch('w'));
    assert_eq!(app.tab().cx, 4);
    press(&mut app, ch('w'));
    assert_eq!(app.tab().cx, 9);
    press(&mut app, ch('w'));
    assert_eq!(app.tab().cx, 13);
    press(&mut app, ch('b'));
    assert_eq!(app.tab().cx, 9);
    press(&mut app, ch('b'));
    assert_eq!(app.tab().cx, 4);
    press(&mut app, ch('b'));
    assert_eq!(app.tab().cx, 0);
}

#[test]
fn delete_char_and_line() {
    let mut app = App::new(None, "abc\ndef\nghi");
    press(&mut app, ch('x'));
    assert_eq!(active_text(&app), "bc\ndef\nghi");
    assert!(app.buf().dirty);
    press(&mut app, ch('j'));
    press(&mut app, ch('d'));
    assert_eq!(active_text(&app), "bc\nghi");
    press(&mut app, ch('d'));
    assert_eq!(active_text(&app), "bc\n");
    let mut app = App::new(None, "only");
    app.tabs[0].cy = 7;
    press(&mut app, ch('d'));
    assert_eq!(active_text(&app), "");
}

#[test]
fn open_lines_enter_insert_mode() {
    let mut app = App::new(None, "a\nb");
    press(&mut app, ch('o'));
    assert_eq!(active_text(&app), "a\n\nb");
    assert_eq!((app.tab().cx, app.tab().cy), (0, 1));
    assert_eq!(app.tab().mode, Mode::Insert);
    press(&mut app, key(KeyCode::Esc));
    press(&mut app, ch('O'));
    assert_eq!(active_text(&app), "a\n\n\nb");
    assert_eq!(app.tab().cy, 1);
}

#[test]
fn typing_and_backspace() {
    let mut app = App::new(None, "ab");
    press(&mut app, ch('a'));
    assert_eq!(app.tab().cx, 1);
    assert_eq!(app.tab().mode, Mode::Insert);
    press(&mut app, ch('X'));
    assert_eq!(active_text(&app), "aXb");
    press(&mut app, key(KeyCode::Backspace));
    assert_eq!(active_text(&app), "ab");
    assert_eq!(app.tab().cx, 1);
    press(&mut app, key(KeyCode::Enter));
    assert_eq!(active_text(&app), "a\nb");
    assert_eq!((app.tab().cx, app.tab().cy), (0, 1));
    press(&mut app, key(KeyCode::Backspace));
    assert_eq!(active_text(&app), "ab");
    assert_eq!((app.tab().cx, app.tab().cy), (2, 0));
    press(&mut app, Event::Key(KeyEvent { code: KeyCode::Char('z'), ctrl: true, other_modifiers: false }));
    assert_eq!(active_text(&app), "ab");
    press(&mut app, key(KeyCode::Esc));
    assert_eq!(app.tab().mode, Mode::Normal);
    assert_eq!(app.tab().cx, 1);
}

#[test]
fn insert_mode_arrows() {
    let mut app = App::new(None, "ab\ncd");
    press(&mut app, ch('i'));
    press(&mut app, key(KeyCode::Right));
    press(&mut app, key(KeyCode::Right));
    press(&mut app, key(KeyCode::Right));
    assert_eq!(app.tab().cx, 2);
    press(&mut app, key(KeyCode::Down));
    press(&mut app, key(KeyCode::Down));
    assert_eq!(app.tab().cy, 1);
    press(&mut app, key(KeyCode::Up));
    press(&mut app, key(KeyCode::Left));
    assert_eq!((app.tab().cx, app.tab().cy), (1, 0));
}

#[test]
fn visual_delete_and_yank() {
    let mut app = App::new(None, "hello world");
    press(&mut app, ch('l'));
    press(&mut app, ch('v'));
    assert_eq!(app.tab().mode, Mode::Visual);
    assert_eq!(app.tab().visual_anchor, (0, 1));
    press(&mut app, ch('l'));
    press(&mut app, ch('l'));
    assert!(app.is_in_visual_selection(0, 1));
    assert!(app.is_in_visual_selection(0, 3));
    assert!(!app.is_in_visual_selection(0, 4));
    assert!(!app.is_in_visual_selection(0, 0));
    press(&mut app, ch('d'));
    assert_eq!(active_text(&app), "ho world");
    assert_eq!(app.tab().mode, Mode::Normal);
    assert_eq!((app.tab().cx, app.tab().cy), (1, 0));
    assert!(!app.is_in_visual_selection(0, 1));
    press(&mut app, ch('v'));
    press(&mut app, ch('y'));
    assert_eq!(app.tab().status_msg, "yanked");
    assert_eq!(app.tab().mode, Mode::Normal);
    press(&mut app, ch('v'));
    press(&mut app, key(KeyCode::Esc));
    assert_eq!(app.tab().mode, Mode::Normal);
}

#[test]
fn visual_delete_backwards_across_lines() {
    let mut app = App::new(None, "ab\ncd\nef");
    press(&mut app, ch('j'));
    press(&mut app, ch('l'));
    press(&mut app, ch('v'));
    press(&mut app, ch('k'));
    press(&mut app, ch('0'));
    press(&mut app, ch('x'));
    assert_eq!(active_text(&app), "\nef");
    assert_eq!((app.tab().cx, app.tab().cy), (0, 0));
}

#[test]
fn crash_isolation() {
    let mut app = App::new(None, "abc");
    app.tabs[0].cy = 5;
    press(&mut app, ch('o'));
    assert!(app.buf().crashed);
    assert_eq!(app.tab().status_msg, "Buffer CRASHED! Switch with :buffer <id>");
    assert_eq!(active_text(&app), "abc");
    app.tabs[0].cy = 0;
    press(&mut app, ch('x'));
    assert_eq!(app.tab().status_msg, "Buffer crashed! Switch with :buffer or :ls");
    assert_eq!(active_text(&app), "abc");
}

#[test]
fn with_buffer_reports_completion() {
    let mut app = App::new(None, "abc");
    assert_eq!(app.with_buffer(BufferOp::DeleteChar), Some(()));
    assert_eq!(active_text(&app), "bc");
    app.tabs[0].cx = 9;
    assert_eq!(app.with_buffer(BufferOp::DeleteChar), None);
    assert!(app.buf().crashed);
    assert_eq!(app.with_buffer(BufferOp::DeleteChar), None);
}

#[test]
fn clamp_keeps_cursor_in_text() {
    let mut app = App::new(None, "abc\nde");
    app.tabs[0].cy = 9;
    app.tabs[0].cx = 9;
    app.clamp_cursor();
    assert_eq!((app.tab().cx, app.tab().cy), (1, 1));
    app.tabs[0].mode = Mode::Insert;
    app.tabs[0].cx = 9;
    app.clamp_cursor();
    assert_eq!(app.tab().cx, 2);
    app.clamp_cursor();
    assert_eq!(app.tab().cx, 2);
}

#[test]
fn tabs_cycle() {
    let mut app = App::new(None, "");
    app.new_tab(None, "x");
    app.new_tab(None, "y");
    assert_eq!(app.active_tab, 2);
    app.next_tab();
    assert_eq!(app.active_tab, 0);
    app.prev_tab();
    assert_eq!(app.active_tab, 2);
    app.prev_tab();
    app.next_tab();
    assert_eq!(app.active_tab, 2);
    app.close_tab();
    assert_eq!(app.active_tab, 1);
    assert_eq!(app.tabs.len(), 2);
    app.close_tab();
    app.close_tab();
    assert!(app.quit);
    assert_eq!(app.tabs.len(), 1);
}

#[test]
fn buffers_switch_and_kill() {
    let mut app = App::new(None, "zero");
    let b1 = app.create_buffer(Some("one".to_string()), "1");
    assert_eq!(b1, 1);
    app.switch_buffer(1);
    assert_eq!(app.tab().buffer_id, 1);
    app.switch_buffer(7);
    assert_eq!(app.tab().status_msg, "No buffer 7");
    app.kill_buffer(1);
    assert_eq!(app.buffers.len(), 1);
    assert_eq!(app.tab().buffer_id, 0);
    assert_eq!(app.tab().status_msg, "Buffer 1 killed");
    app.kill_buffer(0);
    assert_eq!(app.tab().status_msg, "Can't kill last buffer");
    app.kill_buffer(4);
    assert_eq!(app.tab().status_msg, "No buffer 4");
}

#[test]
fn buffer_list_text() {
    let mut app = App::new(Some("main.rs".to_string()), "a\nb\n");
    app.create_buffer(None, "");
    app.buffers.get_mut(&1).unwrap().dirty = true;
    let expected = "  Buffers:\n  ─────────────────────────────────────\n  %    0: main.rs                            3 lines\n   +   1: [No Name]                          1 lines\n\n  % = active in current tab\n  + = unsaved changes\n  Use :buffer <id> to switch";
    assert_eq!(app.buffer_list(), expected);
}

#[test]
fn backspace_takes_back_a_typed_line_break() {
    for c in ['\n', '\r', '\u{b}', '\u{c}', '\u{85}', '\u{2028}', '\u{2029}', 'é'] {
        let mut app = App::new(None, "ab\ncd");
        app.tabs[0].cy = 1;
        app.tabs[0].cx = 1;
        press(&mut app, ch('i'));
        press(&mut app, ch(c));
        assert!(active_text(&app).contains(c));
        press(&mut app, key(KeyCode::Backspace));
        assert_eq!(active_text(&app), "ab\ncd");
        assert_eq!((app.tab().cx, app.tab().cy), (1, 1));
        assert_eq!(app.tab().mode, Mode::Insert);
    }
}

#[test]
fn lf_after_a_line_ending_cr_joins_it() {
    // The one case the law leaves out: LF typed at the start of a line that follows a CR.
    let mut app = App::new(None, "ab\rcd");
    app.tabs[0].cy = 1;
    press(&mut app, ch('i'));
    press(&mut app, ch('\n'));
    assert_eq!(active_text(&app), "ab\r\ncd");
    assert_eq!(app.line_count(), 2);
    press(&mut app, key(KeyCode::Backspace));
    assert_ne!(active_text(&app), "ab\rcd");
}
