use rvim::editor::App;
use rvim::help::HELP_TEXT;
use rvim::mode::{is_force_quit, Event, KeyCode, KeyEvent, Mode, OpenTarget, Request};

fn key(code: KeyCode) -> Event {
    Event::Key(KeyEvent { code, ctrl: false, other_modifiers: false })
}

fn ch(c: char) -> Event {
    key(KeyCode::Char(c))
}

fn active_text(app: &App) -> String {
    app.buf().rope.to_string()
}

fn command(app: &mut App, cmd: &str) -> Request {
    app.handle_event(ch(':'));
    for c in cmd.chars() {
        app.handle_event(ch(c));
    }
    app.handle_event(key(KeyCode::Enter))
}

#[test]
fn command_line_editing() {
    let mut app = App::new(None, "abc");
    app.handle_event(ch(':'));
    assert_eq!(app.tab().mode, Mode::Command);
    app.handle_event(ch('h'));
    app.handle_event(ch('x'));
    app.handle_event(key(KeyCode::Backspace));
    assert_eq!(app.tab().command_buf, "h");
    app.handle_event(key(KeyCode::Backspace));
    app.handle_event(key(KeyCode::Backspace));
    assert_eq!(app.tab().command_buf, "");
    app.handle_event(ch('q'));
    app.handle_event(key(KeyCode::Esc));
    assert_eq!(app.tab().mode, Mode::Normal);
    assert_eq!(app.tab().command_buf, "");
    assert!(!app.quit);
}

#[test]
fn help_view_and_back() {
    let mut app = App::new(Some("main.rs".to_string()), "fn main() {}\n");
    app.tabs[0].cy = 1;
    let req = command(&mut app, "help");
    assert!(matches!(req, Request::Done));
    assert_eq!(app.buffers.len(), 2);
    assert_eq!(app.tab().buffer_id, 1);
    assert_eq!(app.buf().name(), "[Help]");
    assert_eq!(active_text(&app), HELP_TEXT);
    assert_eq!(app.tab().prev_view, Some((0, 0, 1, 0)));
    assert_eq!(app.tab().status_msg, "Press :q to close help");
    assert_eq!(app.tab().last_command, "help");
    assert_eq!(app.tab().mode, Mode::Normal);
    // Inside the help view, the buffer list replaces the help text in place.
    command(&mut app, "ls");
    assert_eq!(app.buffers.len(), 2);
    assert_eq!(app.buf().name(), "[Buffers]");
    assert_eq!(app.tab().status_msg, "Press :q to close | :buffer <id> to switch");
    command(&mut app, "q");
    assert_eq!(app.buffers.len(), 1);
    assert_eq!(app.tab().buffer_id, 0);
    assert_eq!((app.tab().cx, app.tab().cy), (0, 1));
    assert_eq!(app.tab().prev_view, None);
    assert_eq!(app.tab().status_msg, "");
    assert!(!app.quit);
}

#[test]
fn quit_last_tab_ends_the_editor() {
    let mut app = App::new(None, "");
    command(&mut app, "q!");
    assert!(app.quit);
}

#[test]
fn write_without_a_file_name() {
    let mut app = App::new(None, "x");
    let req = command(&mut app, "w");
    assert!(matches!(req, Request::Done));
    assert_eq!(app.tab().status_msg, "No filename");
    assert_eq!(app.tab().mode, Mode::Normal);
}

#[test]
fn write_asks_for_the_file_to_be_written() {
    let mut app = App::new(Some("notes.txt".to_string()), "hello");
    app.handle_event(ch('x'));
    assert!(app.buf().dirty);
    match command(&mut app, "w") {
        Request::Write { path, text, close_after } => {
            assert_eq!(path, "notes.txt");
            assert_eq!(text, "ello");
            assert!(!close_after);
        }
        _ => panic!("expected a write"),
    }
    assert_eq!(app.tab().mode, Mode::Command);
    app.finish_save(false, Ok(()));
    assert!(!app.buf().dirty);
    assert_eq!(app.tab().status_msg, "\"notes.txt\" written");
    assert_eq!(app.tab().mode, Mode::Normal);
    assert_eq!(app.tab().command_buf, "");
}

#[test]
fn failed_write_keeps_the_buffer_dirty() {
    let mut app = App::new(Some("notes.txt".to_string()), "hello");
    app.handle_event(ch('x'));
    command(&mut app, "w");
    app.finish_save(false, Err("Permission denied (os error 13)".to_string()));
    assert!(app.buf().dirty);
    assert_eq!(app.tab().status_msg, "Error: Permission denied (os error 13)");
}

#[test]
fn write_as_renames_first() {
    let mut app = App::new(None, "data");
    match command(&mut app, "w out.txt") {
        Request::Write { path, text, close_after } => {
            assert_eq!(path, "out.txt");
            assert_eq!(text, "data");
            assert!(!close_after);
        }
        _ => panic!("expected a write"),
    }
    assert_eq!(app.buf().name(), "out.txt");
}

#[test]
fn write_and_close() {
    let mut app = App::new(Some("a".to_string()), "1");
    app.new_tab(Some("b".to_string()), "2");
    match command(&mut app, "x") {
        Request::Write { close_after, .. } => assert!(close_after),
        _ => panic!("expected a write"),
    }
    app.finish_save(true, Ok(()));
    assert_eq!(app.tabs.len(), 1);
    assert_eq!(app.tab().status_msg, "");
    assert_eq!(app.tabs[0].buffer_id, 0);
    let mut app = App::new(None, "");
    command(&mut app, "wq");
    assert!(app.quit);
}

#[test]
fn edit_opens_a_file_in_the_current_tab() {
    let mut app = App::new(None, "first");
    match command(&mut app, "e other.rs") {
        Request::Read { path, target } => {
            assert_eq!(path, "other.rs");
            assert_eq!(target, OpenTarget::CurrentTab);
            app.finish_open(target, path, "fn f() {}\n");
        }
        _ => panic!("expected a read"),
    }
    assert_eq!(app.tabs.len(), 1);
    assert_eq!(app.tab().buffer_id, 1);
    assert_eq!(app.buf().name(), "other.rs");
    assert_eq!(active_text(&app), "fn f() {}\n");
    assert_eq!(app.tab().mode, Mode::Normal);
    assert_eq!(app.tab().command_buf, "");
}

#[test]
fn tabnew_with_a_file() {
    let mut app = App::new(None, "first");
    match command(&mut app, "tabnew b.txt") {
        Request::Read { path, target } => {
            assert_eq!(target, OpenTarget::NewTab);
            app.finish_open(target, path, "bee");
        }
        _ => panic!("expected a read"),
    }
    assert_eq!(app.tabs.len(), 2);
    assert_eq!(app.active_tab, 1);
    assert_eq!(active_text(&app), "bee");
    command(&mut app, "tabnew");
    assert_eq!(app.tabs.len(), 3);
    assert_eq!(app.buf().name(), "[No Name]");
    command(&mut app, "gt");
    assert_eq!(app.active_tab, 0);
    command(&mut app, "gT");
    assert_eq!(app.active_tab, 2);
    command(&mut app, "tabclose");
    assert_eq!(app.tabs.len(), 2);
}

#[test]
fn buffer_commands() {
    let mut app = App::new(None, "zero");
    command(&mut app, "bnew");
    assert_eq!(app.tab().buffer_id, 1);
    command(&mut app, "buffer 0");
    assert_eq!(app.tab().buffer_id, 0);
    command(&mut app, "buffer x");
    assert_eq!(app.tab().status_msg, "Invalid buffer id: x");
    command(&mut app, "buffer 9");
    assert_eq!(app.tab().status_msg, "No buffer 9");
    command(&mut app, "buffer 1");
    command(&mut app, "kb 1");
    assert_eq!(app.buffers.len(), 1);
    assert_eq!(app.tab().buffer_id, 0);
    assert_eq!(app.tab().status_msg, "Buffer 1 killed");
    command(&mut app, "kb");
    assert_eq!(app.tab().status_msg, "Can't kill last buffer");
    command(&mut app, "kb +0");
    assert_eq!(app.tab().status_msg, "Can't kill last buffer");
    command(&mut app, "kb -1");
    assert_eq!(app.tab().status_msg, "Invalid buffer id: -1");
}

#[test]
fn settings_and_unknown_commands() {
    let mut app = App::new(None, "");
    command(&mut app, "  set cursorline ");
    assert!(app.tab().cursorline);
    assert_eq!(app.tab().last_command, "set cursorline");
    command(&mut app, "set nocursorline");
    assert!(!app.tab().cursorline);
    command(&mut app, "fw");
    assert_eq!(app.tab().status_msg, "No filename");
    command(&mut app, "zz");
    assert_eq!(app.tab().status_msg, "Unknown command: zz");
}

#[test]
fn force_quit_key() {
    let ctrl_c = Event::Key(KeyEvent { code: KeyCode::Char('c'), ctrl: true, other_modifiers: false });
    assert!(is_force_quit(&ctrl_c));
    assert!(!is_force_quit(&ch('c')));
    let shifted = Event::Key(KeyEvent { code: KeyCode::Char('c'), ctrl: true, other_modifiers: true });
    assert!(!is_force_quit(&shifted));
    assert!(!is_force_quit(&Event::Other));
}

#[test]
fn list_then_quit_returns() {
    let mut app = App::new(Some("a.txt".to_string()), "one\ntwo\n");
    app.tabs[0].cy = 1;
    app.tabs[0].cx = 2;
    command(&mut app, "ls");
    assert_eq!(app.buf().name(), "[Buffers]");
    assert!(active_text(&app).contains("%    0: a.txt"));
    command(&mut app, "q");
    assert_eq!(app.buffers.len(), 1);
    assert_eq!(app.tab().buffer_id, 0);
    assert_eq!((app.tab().cx, app.tab().cy), (2, 1));
}

#[test]
fn listed_number_switches_and_kills() {
    let mut app = App::new(None, "zero");
    app.create_buffer(Some("one".to_string()), "1");
    app.create_buffer(Some("two".to_string()), "2");
    let list = app.buffer_list();
    assert!(list.contains("  2: two"));
    command(&mut app, "buffer 2");
    assert_eq!(app.buf().name(), "two");
    command(&mut app, "kb 2");
    assert_eq!(app.buffers.len(), 2);
    assert_eq!(app.tab().buffer_id, 0);
}

#[test]
fn a_crash_stays_in_its_buffer() {
    let mut app = App::new(Some("a".to_string()), "keep me");
    app.new_tab(Some("b".to_string()), "xyz");
    app.tabs[1].cy = 4;
    app.handle_event(ch('o'));
    assert!(app.buffers[&1].crashed);
    assert!(!app.buffers[&0].crashed);
    assert_eq!(app.buffers[&0].rope.to_string(), "keep me");
    assert_eq!(app.tabs[0].status_msg, "");
    assert_eq!(app.tabs.len(), 2);
    command(&mut app, "tabprev");
    app.handle_event(ch('x'));
    assert_eq!(active_text(&app), "eep me");
}

#[test]
fn killed_buffer_falls_back_to_the_lowest_number() {
    let mut app = App::new(None, "zero");
    app.create_buffer(None, "one");
    app.create_buffer(None, "two");
    app.new_tab(None, "three");
    command(&mut app, "buffer 0");
    command(&mut app, "kb 0");
    assert!(!app.buffers.contains_key(&0));
    assert_eq!(app.tab().buffer_id, 1);
    assert_eq!(app.tab().status_msg, "Buffer 0 killed");
    assert_eq!(active_text(&app), "one");
    // The first tab showed buffer 0 too, and falls back the same way.
    assert_eq!(app.tabs[0].buffer_id, 1);
    assert_eq!(app.tabs[0].status_msg, "Buffer 0 killed");
    assert!(app.buffers.contains_key(&3));
}

#[test]
fn file_group_commands() {
    let mut app = App::new(Some("notes.txt".to_string()), "hello");
    match command(&mut app, "fw") {
        Request::Write { path, text, close_after } => {
            assert_eq!(path, "notes.txt");
            assert_eq!(text, "hello");
            assert!(!close_after);
        }
        _ => panic!("expected a write"),
    }
    app.finish_save(false, Ok(()));
    match command(&mut app, "fw other.txt") {
        Request::Write { path, .. } => assert_eq!(path, "other.txt"),
        _ => panic!("expected a write"),
    }
    app.finish_save(false, Ok(()));
    assert_eq!(app.buf().name(), "other.txt");
    match command(&mut app, "fx") {
        Request::Write { close_after, .. } => assert!(close_after),
        _ => panic!("expected a write"),
    }
    app.finish_save(true, Ok(()));
    assert!(app.quit);
    let mut app = App::new(None, "");
    command(&mut app, "help");
    command(&mut app, "fq");
    assert_eq!(app.buffers.len(), 1);
    assert!(!app.quit);
    command(&mut app, "fq!");
    assert!(app.quit);
}

#[test]
fn buffer_group_commands() {
    let mut app = App::new(None, "zero");
    command(&mut app, "bnew");
    command(&mut app, "bnew");
    command(&mut app, "bl");
    assert_eq!(app.buf().name(), "[Buffers]");
    command(&mut app, "q");
    command(&mut app, "bk 1");
    assert!(!app.buffers.contains_key(&1));
    command(&mut app, "bk x");
    assert_eq!(app.tab().status_msg, "Invalid buffer id: x");
    assert_eq!(app.tab().buffer_id, 2);
    command(&mut app, "bk");
    assert!(!app.buffers.contains_key(&2));
    assert_eq!(app.tab().buffer_id, 0);
}

#[test]
fn tab_group_commands() {
    let mut app = App::new(None, "first");
    command(&mut app, "tnew");
    assert_eq!(app.tabs.len(), 2);
    assert_eq!(app.active_tab, 1);
    command(&mut app, "tnext");
    assert_eq!(app.active_tab, 0);
    command(&mut app, "tprev");
    assert_eq!(app.active_tab, 1);
    match command(&mut app, "tnew b.txt") {
        Request::Read { path, target } => {
            assert_eq!(path, "b.txt");
            assert_eq!(target, OpenTarget::NewTab);
            app.finish_open(target, path, "bee");
        }
        _ => panic!("expected a read"),
    }
    assert_eq!(app.tabs.len(), 3);
    command(&mut app, "tclose");
    assert_eq!(app.tabs.len(), 2);
}

#[test]
fn visual_word_motions_extend_the_selection() {
    let mut app = App::new(None, "one two three");
    app.handle_event(ch('v'));
    app.handle_event(ch('w'));
    assert_eq!(app.tab().mode, Mode::Visual);
    assert_eq!(app.tab().visual_anchor, (0, 0));
    assert_eq!(app.tab().cx, 4);
    app.handle_event(ch('w'));
    assert_eq!(app.tab().cx, 8);
    app.handle_event(ch('b'));
    assert_eq!(app.tab().cx, 4);
    assert!(app.is_in_visual_selection(0, 4));
    assert!(!app.is_in_visual_selection(0, 5));
    assert!(!app.buf().dirty);
}

fn summary(app: &App, req: &Request) -> String {
    let mut ids: Vec<usize> = app.buffers.keys().cloned().collect();
    ids.sort();
    let mut out = String::new();
    for id in ids {
        let b = &app.buffers[&id];
        out.push_str(&format!("[{} {} {} {}]", id, b.name(), b.dirty, b.rope.to_string()));
    }
    for t in &app.tabs {
        out.push_str(&format!(
            "<{} {} {} {} {:?} {} {:?}>",
            t.buffer_id, t.cx, t.cy, t.offset, t.mode, t.status_msg, t.prev_view
        ));
    }
    let req_text = match req {
        Request::Done => "done".to_string(),
        Request::Read { path, target } => format!("read {} {:?}", path, target),
        Request::Write { path, text, close_after } => format!("write {} {} {}", path, text, close_after),
    };
    format!("{} active={} quit={} {}", out, app.active_tab, app.quit, req_text)
}

fn two_tab_app() -> App {
    let mut app = App::new(Some("a.txt".to_string()), "alpha\nbeta\n");
    command(&mut app, "bnew");
    command(&mut app, "tabnew");
    command(&mut app, "tabprev");
    app
}

#[test]
fn short_forms_do_what_long_forms_do() {
    let pairs = [
        ("fw", "w"),
        ("fq", "q"),
        ("fq!", "q!"),
        ("fx", "wq"),
        ("bk", "kb"),
        ("bl", "ls"),
        ("tnew", "tabnew"),
        ("tnext", "tabnext"),
        ("tprev", "tabprev"),
        ("tclose", "tabclose"),
        ("fw other.txt", "w other.txt"),
        ("bk 0", "kb 0"),
        ("tnew b.txt", "tabnew b.txt"),
    ];
    for (short, long) in pairs {
        let mut a = two_tab_app();
        let mut b = two_tab_app();
        let ra = command(&mut a, short);
        let rb = command(&mut b, long);
        assert_eq!(summary(&a, &ra), summary(&b, &rb), "{} against {}", short, long);
    }
}

#[test]
fn visual_delete_removes_exactly_the_selection() {
    let mut app = App::new(None, "abc\ndef\n");
    app.handle_event(ch('l'));
    app.handle_event(ch('v'));
    app.handle_event(ch('j'));
    let text: Vec<char> = "abc\ndef\n".chars().collect();
    let mut kept = String::new();
    let mut row = 0;
    let mut col = 0;
    for c in &text {
        if !app.is_in_visual_selection(row, col) {
            kept.push(*c);
        }
        if *c == '\n' {
            row += 1;
            col = 0;
        } else {
            col += 1;
        }
    }
    assert_eq!(kept, "af\n");
    app.handle_event(ch('d'));
    assert_eq!(active_text(&app), kept);
    assert!(app.buf().dirty);
    assert_eq!(app.tab().mode, Mode::Normal);
    assert_eq!((app.tab().cy, app.tab().cx), (0, 1));
}

#[test]
fn visual_delete_to_the_end_puts_the_cursor_on_the_last_character() {
    let mut app = App::new(None, "abc");
    app.handle_event(ch('l'));
    app.handle_event(ch('v'));
    app.handle_event(ch('$'));
    app.handle_event(ch('x'));
    assert_eq!(active_text(&app), "a");
    assert_eq!((app.tab().cy, app.tab().cx), (0, 0));
    assert_eq!(app.tab().mode, Mode::Normal);
}
