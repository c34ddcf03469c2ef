//! Windows, connections, tabs, notifications and the mouse.

use ianua::app::{is_openable, mouse_report_bytes, App, Effect, UserEvent};
use ianua::connection::{Connection, Target};
use ianua::grid::Selection;
use ianua::input::{Key, ModifiersState, NamedKey};
use ianua::manager::ConnectionManager;
use ianua::session::SidebarTarget;
use ianua::window::{WinStatus, Window};

fn program(windows: usize) -> App {
    let mut manager = ConnectionManager::new();
    let idx = manager.add(Connection::new(Target::Local));
    for _ in 0..windows {
        manager.connection_mut(idx).unwrap().open_window(10, 4);
    }
    App::new(manager, idx, 0, None)
}

fn output(app: &mut App, win: usize, bytes: &[u8]) -> Vec<Effect> {
    app.user_event(UserEvent::Pty { conn: 0, win, bytes: bytes.to_vec() })
}

fn key(app: &mut App, s: &str) -> Vec<Effect> {
    app.key(&Key::Character(s.to_string()), Some(s))
}

fn command(app: &mut App, s: &str) -> Vec<Effect> {
    app.set_modifiers(ModifiersState { super_key: true, ..ModifiersState::default() });
    let out = key(app, s);
    app.set_modifiers(ModifiersState::default());
    out
}

fn written(effects: &[Effect]) -> Vec<Vec<u8>> {
    effects
        .iter()
        .filter_map(|e| match e {
            Effect::Write { bytes, .. } => Some(bytes.clone()),
            _ => None,
        })
        .collect()
}

fn redraws(effects: &[Effect]) -> bool {
    effects.iter().any(|e| matches!(e, Effect::Redraw))
}

#[test]
fn windows_get_titles_and_identifiers() {
    let mut c = Connection::new(Target::Ssh("user@host".to_string()));
    assert_eq!(c.label(), "user@host");
    assert_eq!(c.open_window(80, 24), 0);
    assert_eq!(c.open_window(80, 24), 1);
    assert_eq!(c.window(1).unwrap().title, "user@host \u{b7} win1");
    assert!(c.close_window(0));
    assert!(!c.close_window(0));
    assert_eq!(c.open_window(80, 24), 2);
    c.skip_id();
    assert_eq!(c.open_window(80, 24), 4);
    assert_eq!(c.window_ids(), vec![1, 2, 4]);
    assert!(c.window(0).is_none());
    assert_eq!(c.windows().len(), 3);
    c.window_mut(2).unwrap().title = "named".to_string();
    assert_eq!(c.window(2).unwrap().title, "named");
}

#[test]
fn commands_of_connections() {
    let local = Connection::new(Target::Local).build_command(None);
    assert_eq!(local.program, "/bin/bash");
    assert!(local.args.is_empty());
    assert_eq!(local.env, vec![("TERM".to_string(), "xterm-256color".to_string())]);
    let zsh = Connection::new(Target::Local).build_command(Some("/bin/zsh".to_string()));
    assert_eq!(zsh.program, "/bin/zsh");
    let ssh = Connection::new(Target::Ssh("gadi".to_string())).build_command(None);
    assert_eq!(ssh.program, "ssh");
    assert_eq!(
        ssh.args,
        vec![
            "-tt",
            "-o",
            "ControlMaster=auto",
            "-o",
            "ControlPath=~/.ssh/cm-%C",
            "-o",
            "ControlPersist=10m",
            "gadi"
        ]
    );
}

#[test]
fn windows_are_listed_by_connection() {
    let mut m = ConnectionManager::new();
    let a = m.add(Connection::new(Target::Local));
    let b = m.add(Connection::new(Target::Ssh("h".to_string())));
    assert_eq!((a, b), (0, 1));
    m.connection_mut(b).unwrap().open_window(5, 5);
    m.connection_mut(a).unwrap().open_window(5, 5);
    m.connection_mut(a).unwrap().open_window(5, 5);
    assert_eq!(m.all_windows(), vec![(0, 0), (0, 1), (1, 0)]);
    assert!(m.window_mut(1, 0).is_some());
    assert!(m.window_mut(1, 1).is_none());
    assert!(m.window_mut(2, 0).is_none());
    assert!(m.connection(2).is_none());
}

#[test]
fn shell_marks_set_the_status() {
    let mut w = Window::new(0, "t".to_string(), 10, 2);
    assert_eq!(w.status, WinStatus::Idle);
    w.feed(b"\x1b]133;C\x07\x1b]2;job\x07\x1b[c\x07");
    let (replies, others) = w.settle();
    assert_eq!(w.status, WinStatus::Running);
    assert_eq!(w.title, "job");
    assert_eq!(replies, vec![b"\x1b[?1;2c".to_vec()]);
    assert_eq!(others.len(), 1);
    w.feed(b"\x1b]133;D;1\x07");
    w.settle();
    assert_eq!(w.status, WinStatus::Failed);
    w.feed(b"\x1b]133;D;0\x07");
    w.settle();
    assert_eq!(w.status, WinStatus::Idle);
    w.resize(3, 1);
    assert_eq!((w.grid.cols, w.grid.rows), (3, 1));
}

#[test]
fn tabs_are_switched_and_cycled() {
    let mut app = program(3);
    assert_eq!(app.tabs(), &vec![(0, 0), (0, 1), (0, 2)]);
    command(&mut app, "]");
    assert_eq!(app.shown(), (0, 1));
    command(&mut app, "[");
    command(&mut app, "[");
    assert_eq!(app.shown(), (0, 2));
    command(&mut app, "]");
    assert_eq!(app.shown(), (0, 0));
    let out = command(&mut app, "3");
    assert_eq!(app.shown(), (0, 2));
    assert!(matches!(&out[0], Effect::Title(t) if t == "local \u{b7} win2"));
    assert!(command(&mut app, "9").is_empty());
    assert_eq!(app.shown(), (0, 2));
    let mut one = program(1);
    assert!(command(&mut one, "]").is_empty());
}

#[test]
fn closing_the_last_tab_ends_the_program() {
    let mut app = program(2);
    let out = command(&mut app, "W");
    assert!(matches!(&out[0], Effect::Close { conn: 0, win: 0 }));
    assert!(matches!(&out[1], Effect::Relayout));
    assert_eq!(app.shown(), (0, 1));
    assert_eq!(app.tabs().len(), 1);
    let out = app.user_event(UserEvent::Closed { conn: 0, win: 1 });
    assert!(matches!(out.last(), Some(Effect::Exit)));
    assert!(app.tabs().is_empty());
    assert_eq!(app.active_title(), "term");
}

#[test]
fn a_background_window_is_removed() {
    let mut app = program(2);
    let out = app.user_event(UserEvent::Closed { conn: 0, win: 1 });
    assert!(redraws(&out));
    assert_eq!(app.shown(), (0, 0));
    assert_eq!(app.tabs(), &vec![(0, 0)]);
    let out = app.user_event(UserEvent::Closed { conn: 0, win: 1 });
    assert!(!out.iter().any(|e| matches!(e, Effect::Close { .. })));
}

#[test]
fn new_windows_are_asked_for_and_added() {
    let mut app = program(1);
    assert!(matches!(&command(&mut app, "t")[..], [Effect::Open { conn: 0 }]));
    let (id, out) = app.add_window(0, 20, 5).unwrap();
    assert_eq!(id, 1);
    assert!(matches!(&out[0], Effect::Relayout));
    assert_eq!(app.shown(), (0, 1));
    assert!(app.show_sidebar());
    assert!(app.add_window(7, 20, 5).is_none());
    app.skip_window(0);
    assert_eq!(app.add_window(0, 20, 5).unwrap().0, 3);
}

#[test]
fn the_limit_of_the_history_reaches_every_window() {
    let mut manager = ConnectionManager::new();
    manager.add(Connection::new(Target::Local));
    manager.connection_mut(0).unwrap().open_window(4, 1);
    let mut app = App::new(manager, 0, 0, Some(1));
    app.add_window(0, 4, 1);
    for win in [0, 1] {
        output(&mut app, win, b"1\r\n2\r\n3");
        app.switch_to(0, win);
        app.wheel(true, 9, (0, 0));
        assert_eq!(app.active().unwrap().grid.visible_cell(0, 0).c, '2');
    }
}

#[test]
fn sizes_reach_every_window() {
    let mut app = program(2);
    let out = app.sync_all_sizes(7, 3);
    assert_eq!(out.len(), 2);
    assert!(matches!(&out[1], Effect::Resize { conn: 0, win: 1, cols: 7, rows: 3 }));
    assert_eq!(app.window(0, 1).unwrap().grid.cols, 7);
}

#[test]
fn only_what_is_out_of_sight_is_announced() {
    let mut app = program(2);
    let out = output(&mut app, 0, b"\x07");
    assert!(!out.iter().any(|e| matches!(e, Effect::Notify { .. })));
    assert!(!app.window(0, 0).unwrap().alerted);
    let out = output(&mut app, 1, b"\x07");
    assert!(out.iter().any(|e| matches!(
        e,
        Effect::Notify { summary, body } if summary == "local \u{b7} win1" && body == "\u{5b8c}\u{6210}"
    )));
    assert!(app.window(0, 1).unwrap().alerted);
    assert!(app.window(0, 1).unwrap().activity);
    app.switch_to(0, 1);
    assert!(!app.window(0, 1).unwrap().alerted);
    assert!(!app.window(0, 1).unwrap().activity);
    app.focus(false);
    let out = output(&mut app, 1, b"\x1b]777;notify;;text\x07");
    assert!(out.iter().any(|e| matches!(
        e,
        Effect::Notify { summary, body } if summary == "term" && body == "text"
    )));
    app.focus(true);
    assert!(!app.window(0, 1).unwrap().alerted);
}

#[test]
fn output_is_answered_and_passed_on() {
    let mut app = program(1);
    let out = output(&mut app, 0, b"\x1b[6n\x1b]52;c;aGk=\x07\x1b]2;new\x07\x1b]7;file:///x\x07");
    assert_eq!(written(&out), vec![b"\x1b[1;1R".to_vec()]);
    assert!(out.iter().any(|e| matches!(e, Effect::SetClipboard(t) if t == "hi")));
    assert!(out.iter().any(|e| matches!(e, Effect::Title(t) if t == "new")));
    assert_eq!(app.window(0, 0).unwrap().cwd.as_deref(), Some("file:///x"));
    let out = output(&mut app, 5, b"lost");
    assert_eq!(out.len(), 1);
    assert!(redraws(&out));
}

#[test]
fn redraws_are_held_back_but_not_for_ever() {
    let mut app = program(1);
    assert!(!redraws(&output(&mut app, 0, b"\x1b[?2026h")));
    for _ in 0..63 {
        assert!(!redraws(&output(&mut app, 0, b"x")));
    }
    assert!(redraws(&output(&mut app, 0, b"x")));
    assert!(!redraws(&output(&mut app, 0, b"x")));
    assert!(redraws(&output(&mut app, 0, b"\x1b[?2026l")));
}

#[test]
fn keys_go_to_the_window_that_is_shown() {
    let mut app = program(2);
    let out = key(&mut app, "a");
    assert!(matches!(&out[0], Effect::Write { conn: 0, win: 0, bytes } if bytes == b"a"));
    assert!(redraws(&out));
    output(&mut app, 0, b"\x1b[?1h");
    let out = app.key(&Key::Named(NamedKey::ArrowUp), None);
    assert_eq!(written(&out), vec![b"\x1bOA".to_vec()]);
    app.set_modifiers(ModifiersState { control: true, ..ModifiersState::default() });
    assert_eq!(written(&key(&mut app, "c")), vec![vec![3u8]]);
    app.set_modifiers(ModifiersState::default());
    assert!(app.key(&Key::Named(NamedKey::Other), None).is_empty());
}

#[test]
fn command_keys_are_swallowed() {
    let mut app = program(1);
    assert!(command(&mut app, "x").is_empty());
    assert!(command(&mut app, "0").is_empty());
    assert!(matches!(&command(&mut app, "v")[..], [Effect::Paste]));
    assert!(command(&mut app, "c").is_empty());
    app.set_modifiers(ModifiersState { control: true, shift: true, ..ModifiersState::default() });
    assert!(matches!(&key(&mut app, "T")[..], [Effect::Open { conn: 0 }]));
    assert_eq!(written(&key(&mut app, "x")), vec![vec![0x18u8]]);
}

#[test]
fn the_sidebar_is_toggled() {
    let mut app = program(1);
    assert!(!app.show_sidebar());
    let out = command(&mut app, "b");
    assert!(matches!(&out[..], [Effect::Relayout, Effect::Redraw]));
    assert!(app.show_sidebar());
    command(&mut app, "B");
    assert!(!app.show_sidebar());
}

#[test]
fn the_sidebar_lists_connections_and_windows() {
    let mut app = program(2);
    output(&mut app, 1, b"\x1b]133;C\x07");
    let (items, targets) = app.build_sidebar();
    assert_eq!(targets, vec![
        SidebarTarget::Host(0),
        SidebarTarget::Win(0, 0),
        SidebarTarget::Win(0, 1)
    ]);
    assert!(items[0].is_host && items[0].label == "local");
    assert!(items[1].active && !items[2].active);
    assert!(items[2].activity);
    assert_eq!(items[2].status, WinStatus::Running);
    let out = app.mouse_left(true, Some(2), (0, 0));
    assert_eq!(app.shown(), (0, 1));
    assert!(redraws(&out));
    assert!(matches!(&app.mouse_left(true, Some(0), (0, 0))[..], [Effect::Open { conn: 0 }]));
    assert!(app.mouse_left(true, Some(3), (0, 0)).is_empty());
}

#[test]
fn text_is_selected_and_copied() {
    let mut app = program(1);
    output(&mut app, 0, b"hello\r\nworld");
    app.mouse_left(true, None, (1, 0));
    app.cursor_moved((2, 1));
    assert_eq!(app.selection(), Some(Selection { anchor: (1, 0), head: (2, 1) }));
    app.mouse_left(false, None, (2, 1));
    app.cursor_moved((9, 3));
    assert_eq!(app.selection(), Some(Selection { anchor: (1, 0), head: (2, 1) }));
    let out = command(&mut app, "c");
    assert!(matches!(&out[..], [Effect::SetClipboard(t)] if t == "ello\nwor"));
    key(&mut app, "a");
    assert_eq!(app.selection(), None);
}

#[test]
fn text_is_pasted() {
    let mut app = program(1);
    assert_eq!(written(&app.paste("a\nb")), vec![b"a\rb".to_vec()]);
    assert!(app.paste("").is_empty());
    output(&mut app, 0, b"\x1b[?2004h");
    assert_eq!(written(&app.paste("a")), vec![b"\x1b[200~a\x1b[201~".to_vec()]);
}

#[test]
fn links_are_opened_by_a_click() {
    let mut app = program(1);
    output(&mut app, 0, b"\x1b]8;;https://a.b\x07L\x1b]8;;javascript:x\x07M\x1b]8;;\x07");
    app.mouse_left(true, None, (0, 0));
    let out = app.mouse_left(false, None, (0, 0));
    assert!(matches!(&out[..], [Effect::OpenUrl(u)] if u == "https://a.b"));
    assert_eq!(app.selection(), None);
    app.mouse_left(true, None, (1, 0));
    assert!(app.mouse_left(false, None, (1, 0)).is_empty());
    app.mouse_left(true, None, (5, 0));
    assert!(app.mouse_left(false, None, (5, 0)).is_empty());
}

#[test]
fn addresses_that_may_be_opened() {
    assert!(is_openable("http://x"));
    assert!(is_openable("file:///tmp"));
    assert!(is_openable("mailto:a@b"));
    assert!(!is_openable("HTTP://x"));
    assert!(!is_openable("ssh://x"));
    assert!(!is_openable("http:/"));
    assert!(!is_openable(""));
}

#[test]
fn mouse_reports_in_both_forms() {
    assert_eq!(mouse_report_bytes(true, 0, (4, 9), true), b"\x1b[<0;5;10M");
    assert_eq!(mouse_report_bytes(true, 65, (0, 0), false), b"\x1b[<65;1;1m");
    assert_eq!(mouse_report_bytes(false, 0, (0, 1), true), [0x1b, 0x5b, 0x4d, 32, 33, 34]);
    assert_eq!(mouse_report_bytes(false, 64, (222, 500), true), [0x1b, 0x5b, 0x4d, 96, 255, 255]);
    assert_eq!(mouse_report_bytes(false, 64, (221, 0), false), [0x1b, 0x5b, 0x4d, 35, 254, 33]);
}

#[test]
fn the_mouse_goes_to_an_application_that_wants_it() {
    let mut app = program(1);
    output(&mut app, 0, b"\x1b[?1000h\x1b[?1006h");
    assert_eq!(written(&app.mouse_left(true, None, (2, 1))), vec![b"\x1b[<0;3;2M".to_vec()]);
    assert!(app.cursor_moved((3, 1)).is_empty());
    assert_eq!(written(&app.mouse_left(false, None, (3, 1))), vec![b"\x1b[<0;4;2m".to_vec()]);
    output(&mut app, 0, b"\x1b[?1002h");
    app.mouse_left(true, None, (2, 1));
    assert_eq!(written(&app.cursor_moved((3, 1))), vec![b"\x1b[<32;4;2M".to_vec()]);
    app.mouse_left(false, None, (3, 1));
    assert!(app.cursor_moved((4, 1)).is_empty());
    output(&mut app, 0, b"\x1b[?1003h");
    assert_eq!(written(&app.cursor_moved((4, 1))), vec![b"\x1b[<35;5;2M".to_vec()]);
    output(&mut app, 0, b"\x1b[?1006l");
    assert_eq!(written(&app.cursor_moved((4, 1))), vec![vec![0x1b, b'[', b'M', 67, 37, 34]]);
    app.set_modifiers(ModifiersState { shift: true, ..ModifiersState::default() });
    app.mouse_left(true, None, (2, 1));
    assert!(app.selection().is_some());
}

#[test]
fn the_wheel_scrolls_or_is_reported() {
    let mut app = program(1);
    output(&mut app, 0, b"1\r\n2\r\n3\r\n4\r\n5\r\n6");
    app.wheel(true, 1, (0, 0));
    assert_eq!(app.active().unwrap().grid.visible_cell(0, 0).c, '2');
    app.wheel(false, 5, (0, 0));
    assert_eq!(app.active().unwrap().grid.visible_cell(0, 0).c, '3');
    output(&mut app, 0, b"\x1b[?1000h\x1b[?1006h");
    assert_eq!(written(&app.wheel(true, 9, (0, 0))).len(), 5);
    assert_eq!(written(&app.wheel(false, 2, (0, 0)))[0], b"\x1b[<65;1;1M");
    output(&mut app, 0, b"\x1b[?1000l\x1b[?1049h");
    assert!(app.wheel(true, 3, (0, 0)).is_empty());
}

#[test]
fn pages_of_history() {
    let mut app = program(1);
    output(&mut app, 0, b"1\r\n2\r\n3\r\n4\r\n5\r\n6\r\n7\r\n8");
    app.set_modifiers(ModifiersState { shift: true, ..ModifiersState::default() });
    assert!(redraws(&app.key(&Key::Named(NamedKey::PageUp), None)));
    assert_eq!(app.active().unwrap().grid.visible_cell(0, 0).c, '2');
    app.key(&Key::Named(NamedKey::PageDown), None);
    assert_eq!(app.active().unwrap().grid.visible_cell(0, 0).c, '5');
}

#[test]
fn new_output_drops_a_selection_in_the_history() {
    let mut app = program(1);
    output(&mut app, 0, b"1\r\n2\r\n3\r\n4\r\n5\r\n6");
    app.wheel(true, 2, (0, 0));
    app.mouse_left(true, None, (0, 0));
    app.cursor_moved((1, 0));
    app.mouse_left(false, None, (1, 0));
    assert!(app.selection().is_some());
    output(&mut app, 0, b"x");
    assert_eq!(app.selection(), None);
}

#[test]
fn focus_is_reported_on_demand() {
    let mut app = program(1);
    assert!(written(&app.focus(false)).is_empty());
    output(&mut app, 0, b"\x1b[?1004h");
    assert_eq!(written(&app.focus(true)), vec![b"\x1b[I".to_vec()]);
    assert_eq!(written(&app.focus(false)), vec![b"\x1b[O".to_vec()]);
}

#[test]
fn output_reaches_one_window_only() {
    let mut app = program(2);
    output(&mut app, 1, b"\x1b[");
    output(&mut app, 0, b"31mA");
    output(&mut app, 1, b"31mB");
    assert_eq!(app.window(0, 0).unwrap().grid.cell(0, 0).c, '3');
    assert_eq!(app.window(0, 1).unwrap().grid.cell(0, 0).c, 'B');
}

#[test]
fn a_background_window_is_marked_until_it_is_chosen() {
    let mut app = program(2);
    output(&mut app, 1, b"news\x07\x1b]133;C\x07more");
    let w = app.window(0, 1).unwrap();
    assert!(w.activity);
    assert!(w.alerted);
    assert_eq!(w.status, WinStatus::Running);
    assert_eq!(w.grid.cell(0, 0).c, 'n');
    command(&mut app, "2");
    let w = app.window(0, 1).unwrap();
    assert!(!w.activity);
    assert!(!w.alerted);
    output(&mut app, 1, b"!");
    assert!(!app.window(0, 1).unwrap().activity);
}
