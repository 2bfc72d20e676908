use oh_my_sftp::app::{
    limit_scrollback, local_files_title, remote_files_title, screen_fits, status_bar_padding,
    usage_level, App, LocalTerminal, UsageLevel,
};
use oh_my_sftp::connection::{ActiveSession, AuthMethod, Connection, ConnectionStatus, Panel};
use oh_my_sftp::event::{EventHandler, EventResult, KeyCode, KeyEvent};
use oh_my_sftp::sftp::SftpEntry;

fn key(code: KeyCode) -> KeyEvent {
    KeyEvent { code, ctrl: false, press: true }
}

fn ctrl(c: char) -> KeyEvent {
    KeyEvent { code: KeyCode::Char(c), ctrl: true, press: true }
}

fn app() -> App {
    App::new("/work".to_string())
}

fn connected_app() -> App {
    let mut a = app();
    let c = Connection::new("prod", "prod.example.com", 22, "deploy", AuthMethod::Agent);
    a.active_session = Some(ActiveSession { connection_id: c.id.clone(), status: ConnectionStatus::Connected });
    a.connections.push(c);
    a
}

fn type_line(a: &mut App, line: &str) {
    for c in line.chars() {
        EventHandler::handle_key(a, key(KeyCode::Char(c)));
    }
    EventHandler::handle_key(a, key(KeyCode::Enter));
}

#[test]
fn initial_state() {
    let a = app();
    assert_eq!(a.status_message, "Ready");
    assert_eq!(a.active_panel, Panel::Terminal);
    assert_eq!(a.remote_cwd, "/");
    assert_eq!(a.local_cwd, "/work");
    assert!(!a.is_connected());
    assert_eq!(a.current_host(), None);
    assert_eq!(a.terminal_output(), "Initializing terminal...\n");
}

#[test]
fn quitting_and_releases() {
    let mut a = app();
    let release = KeyEvent { code: KeyCode::Char('c'), ctrl: true, press: false };
    assert_eq!(EventHandler::handle_key(&mut a, release), EventResult::Continue);
    assert!(!a.should_quit);
    assert_eq!(EventHandler::handle_key(&mut a, ctrl('q')), EventResult::Quit);
    assert!(a.should_quit);
    let mut b = app();
    b.editing_connection = true;
    assert_eq!(EventHandler::handle_key(&mut b, ctrl('c')), EventResult::Quit);
}

#[test]
fn panel_switching() {
    let mut a = app();
    EventHandler::handle_key(&mut a, key(KeyCode::Tab));
    assert_eq!(a.active_panel, Panel::Terminal);
    EventHandler::handle_key(&mut a, ctrl('f'));
    assert_eq!(a.active_panel, Panel::Terminal);
    EventHandler::handle_key(&mut a, ctrl('o'));
    assert!(a.show_connection_list);
    EventHandler::handle_key(&mut a, key(KeyCode::Esc));
    assert!(!a.show_connection_list);

    let mut c = connected_app();
    EventHandler::handle_key(&mut c, key(KeyCode::Tab));
    assert_eq!(c.active_panel, Panel::FileManager);
    EventHandler::handle_key(&mut c, key(KeyCode::Tab));
    assert_eq!(c.active_panel, Panel::ResourceDashboard);
    EventHandler::handle_key(&mut c, key(KeyCode::Tab));
    assert_eq!(c.active_panel, Panel::Terminal);
    EventHandler::handle_key(&mut c, ctrl('d'));
    assert_eq!(c.active_panel, Panel::ResourceDashboard);
    EventHandler::handle_key(&mut c, ctrl('t'));
    assert_eq!(c.active_panel, Panel::Terminal);
    c.switch_panel(Panel::ConnectionList);
    EventHandler::handle_key(&mut c, key(KeyCode::Tab));
    assert_eq!(c.active_panel, Panel::FileManager);
}

#[test]
fn editing_mode_only_listens_for_escape() {
    let mut a = app();
    a.editing_connection = true;
    EventHandler::handle_key(&mut a, key(KeyCode::Char('x')));
    assert_eq!(a.command_input, "");
    EventHandler::handle_key(&mut a, key(KeyCode::Esc));
    assert!(!a.editing_connection);
}

#[test]
fn command_line_editing() {
    let mut a = app();
    for c in "helq".chars() {
        EventHandler::handle_key(&mut a, key(KeyCode::Char(c)));
    }
    EventHandler::handle_key(&mut a, key(KeyCode::Backspace));
    EventHandler::handle_key(&mut a, key(KeyCode::Char('p')));
    assert_eq!(a.command_input, "help");
    assert_eq!(a.command_line_text(), "> help");
    EventHandler::handle_key(&mut a, key(KeyCode::Enter));
    assert_eq!(a.command_input, "");
    assert_eq!(a.command_line_text(), "> _");
    assert_eq!(a.status_message, "Showing help");
    EventHandler::handle_key(&mut a, key(KeyCode::Backspace));
    assert_eq!(a.command_input, "");
    EventHandler::handle_key(&mut a, ctrl('x'));
    assert_eq!(a.command_input, "x");
}

#[test]
fn builtin_commands() {
    let mut a = connected_app();
    type_line(&mut a, "STATUS");
    assert_eq!(a.status_message, "Connected to prod.example.com");
    type_line(&mut a, "list");
    assert_eq!(a.status_message, "1 connections listed");
    assert_eq!(a.remote_terminal.output, "Connections:\n  0: prod (deploy@prod.example.com)\n");
    type_line(&mut a, "connect 0");
    assert_eq!(a.status_message, "Connecting to prod...");
    type_line(&mut a, "connect 7");
    assert_eq!(a.status_message, "Index 7 out of range");
    type_line(&mut a, "connect");
    assert_eq!(a.status_message, "Usage: connect <index>");
    type_line(&mut a, "clear");
    assert_eq!(a.remote_terminal.output, "");
    assert_eq!(a.status_message, "Cleared");
    type_line(&mut a, "frobnicate now");
    assert_eq!(a.status_message, "Unknown command: frobnicate. Type 'help' for available commands.");
    type_line(&mut a, "   ");
    assert_eq!(a.status_message, "Unknown command: . Type 'help' for available commands.");
    type_line(&mut a, "disconnect");
    assert!(!a.is_connected());
    assert_eq!(a.status_message, "Disconnected");
    type_line(&mut a, "status");
    assert_eq!(a.status_message, "Not connected");
    type_line(&mut a, "Quit");
    assert!(a.should_quit);

    let mut empty = app();
    type_line(&mut empty, "list");
    assert_eq!(empty.status_message, "No connections saved");
}

#[test]
fn listing_several_connections() {
    let mut a = app();
    a.connections.push(Connection::new("a", "h1", 22, "u1", AuthMethod::Agent));
    a.connections.push(Connection::new("b", "h2", 22, "u2", AuthMethod::Agent));
    type_line(&mut a, "list");
    assert_eq!(a.remote_terminal.output, "Connections:\n  0: a (u1@h1)\n  1: b (u2@h2)\n");
    assert_eq!(a.status_message, "2 connections listed");
}

#[test]
fn clear_empties_the_local_terminal_too() {
    let mut a = app();
    a.on_pty_ready();
    assert_eq!(a.status_message, "Local terminal ready");
    assert_eq!(
        a.terminal_output(),
        "Local terminal ready.\nCtrl+O: connections | Ctrl+T: terminal | Ctrl+C: quit\n"
    );
    a.local_terminal.as_mut().unwrap().output = "$ ls\n".to_string();
    assert_eq!(a.terminal_output(), "$ ls\n");
    type_line(&mut a, "clear");
    assert_eq!(a.local_terminal.as_ref().unwrap().output, "");
}

#[test]
fn file_manager_keys() {
    let mut a = connected_app();
    a.switch_panel(Panel::FileManager);
    a.remote_cwd = "/srv/www".to_string();
    a.panels.file_manager.entries = vec![
        SftpEntry::from_listing("/srv/www/site", true, None, None),
        SftpEntry::from_listing("/srv/www/index.html", false, Some(10), None),
    ];
    EventHandler::handle_key(&mut a, key(KeyCode::Up));
    assert_eq!(a.panels.file_manager.selected_index, 0);
    EventHandler::handle_key(&mut a, key(KeyCode::Char('j')));
    EventHandler::handle_key(&mut a, key(KeyCode::Down));
    assert_eq!(a.panels.file_manager.selected_index, 1);
    EventHandler::handle_key(&mut a, key(KeyCode::Enter));
    assert_eq!(a.remote_cwd, "/srv/www");
    EventHandler::handle_key(&mut a, key(KeyCode::Char('k')));
    EventHandler::handle_key(&mut a, key(KeyCode::Enter));
    assert_eq!(a.remote_cwd, "/srv/www/site");
    assert_eq!(a.status_message, "Changed to /srv/www/site");
    EventHandler::handle_key(&mut a, key(KeyCode::Backspace));
    EventHandler::handle_key(&mut a, key(KeyCode::Backspace));
    EventHandler::handle_key(&mut a, key(KeyCode::Backspace));
    assert_eq!(a.remote_cwd, "/");
    EventHandler::handle_key(&mut a, key(KeyCode::Backspace));
    assert_eq!(a.remote_cwd, "/");
}

#[test]
fn connection_list_keys() {
    let mut a = app();
    a.switch_panel(Panel::ConnectionList);
    a.panels.connection_list.connections =
        vec![Connection::new("a", "h", 22, "u", AuthMethod::Agent), Connection::new("b", "h", 22, "v", AuthMethod::Agent)];
    EventHandler::handle_key(&mut a, key(KeyCode::Down));
    EventHandler::handle_key(&mut a, key(KeyCode::Down));
    assert_eq!(a.panels.connection_list.selected_index, 1);
    let id = a.panels.connection_list.connections[1].id.clone();
    assert_eq!(EventHandler::handle_key(&mut a, key(KeyCode::Enter)), EventResult::Connect(id.clone()));
    assert_eq!(a.status_message, "Connecting...");
    a.active_session = Some(ActiveSession { connection_id: id, status: ConnectionStatus::Connected });
    EventHandler::handle_key(&mut a, key(KeyCode::Char('d')));
    assert_eq!(a.status_message, "Disconnected");
    assert!(!a.is_connected());
}

#[test]
fn the_open_list_takes_the_arrow_keys() {
    let mut a = app();
    a.panels.connection_list.connections =
        vec![Connection::new("a", "h", 22, "u", AuthMethod::Agent), Connection::new("b", "h", 22, "v", AuthMethod::Agent)];
    EventHandler::handle_key(&mut a, ctrl('o'));
    assert!(a.show_connection_list);
    assert_eq!(a.active_panel, Panel::Terminal);
    EventHandler::handle_key(&mut a, key(KeyCode::Down));
    assert_eq!(a.panels.connection_list.selected_index, 1);
    EventHandler::handle_key(&mut a, key(KeyCode::Char('k')));
    assert_eq!(a.panels.connection_list.selected_index, 0);
    assert_eq!(a.command_input, "");
    EventHandler::handle_key(&mut a, key(KeyCode::Esc));
    EventHandler::handle_key(&mut a, key(KeyCode::Char('k')));
    assert_eq!(a.command_input, "k");
}

#[test]
fn enter_on_a_file_opens_it_for_editing() {
    let mut a = connected_app();
    a.switch_panel(Panel::FileManager);
    a.panels.file_manager.entries = vec![SftpEntry::from_listing("/etc/hosts", false, Some(10), None)];
    let r = EventHandler::handle_key(&mut a, key(KeyCode::Enter));
    assert_eq!(r, EventResult::OpenFile("/etc/hosts".to_string()));
    let ed = a.panels.editor.as_ref().unwrap();
    assert_eq!(ed.file_path, "/etc/hosts");
    assert!(ed.is_remote && !ed.modified && ed.content.is_empty());
    assert_eq!(a.remote_cwd, "/");
}

#[test]
fn connecting_and_its_outcomes() {
    let mut a = app();
    let c = Connection::new("prod", "prod.example.com", 22, "deploy", AuthMethod::Agent);
    let id = c.id.clone();
    a.connections.push(c);
    type_line_result(&mut a, "connect 0", None);
    assert_eq!(a.status_message, "Connecting to prod...");
    type_line_result(&mut a, "connect 5", None);
    assert_eq!(a.connection_index(&id), Some(0));
    assert_eq!(a.connection_index("nope"), None);
    a.on_connect_failed("refused");
    assert_eq!(a.status_message, "Connection failed: refused");
    assert!(!a.is_connected());
    a.on_connected(id.clone());
    assert!(a.is_connected());
    assert_eq!(a.status_message, "Connected to prod.example.com");
    assert_eq!(a.active_session.as_ref().unwrap().connection_id, id);
}

fn type_line_result(a: &mut App, line: &str, expect: Option<String>) {
    for c in line.chars() {
        EventHandler::handle_key(a, key(KeyCode::Char(c)));
    }
    let r = EventHandler::handle_key(a, key(KeyCode::Enter));
    match expect {
        Some(id) => assert_eq!(r, EventResult::Connect(id)),
        None => assert_eq!(r, EventResult::Continue),
    }
}

#[test]
fn shortcut_help_when_the_local_terminal_failed() {
    let mut a = app();
    assert_eq!(a.terminal_output(), "Initializing terminal...\n");
    a.on_pty_failed("no pty");
    let t = a.terminal_output();
    for k in ["Ctrl+O", "Ctrl+T", "Ctrl+F", "Ctrl+D", "Ctrl+C"] {
        assert!(t.contains(k));
    }
}

#[test]
fn display_texts() {
    let mut a = connected_app();
    assert_eq!(a.current_host().as_deref(), Some("prod.example.com"));
    assert_eq!(a.terminal_output(), "Connected to prod.example.com.\nType 'help' for commands.\n");
    assert_eq!(a.title_text(), " oh-my-sftp v0.1.0 | [Terminal] ");
    assert_eq!(a.status_bar_text(), " Ready | 1 conns | 0 tx ");
    a.active_session.as_mut().unwrap().connection_id = "gone".to_string();
    assert_eq!(a.current_host().as_deref(), Some("unknown"));
    a.switch_panel(Panel::ResourceDashboard);
    assert_eq!(a.title_text(), " oh-my-sftp v0.1.0 | [Dashboard] ");
    assert!(a.resource_refresh_due(3000));
    assert!(!a.resource_refresh_due(2999));
    assert_eq!(usage_level(70), UsageLevel::Normal);
    assert_eq!(usage_level(71), UsageLevel::High);
    assert_eq!(usage_level(91), UsageLevel::Critical);
}

#[test]
fn pty_outcomes() {
    let mut a = app();
    assert!(a.awaits_pty());
    a.on_pty_failed("no tty");
    assert_eq!(a.status_message, "PTY unavailable: no tty");
    assert!(!a.awaits_pty());
    let mut b = app();
    b.on_pty_lost();
    assert_eq!(b.status_message, "PTY init thread crashed");
    let _ = LocalTerminal { output: String::new(), scrollback: Vec::new() };
}

#[test]
fn scrollback_is_limited() {
    let short: String = (0..1000).map(|i| format!("l{}\n", i)).collect();
    assert_eq!(limit_scrollback(&short), short);
    let long: String = (0..1001).map(|i| format!("l{}\n", i)).collect();
    let limited = limit_scrollback(&long);
    let expected: Vec<String> = (501..1001).map(|i| format!("l{}", i)).collect();
    assert_eq!(limited, expected.join("\n"));
}

#[test]
fn ctrl_o_twice_restores_the_list_state() {
    let mut a = app();
    let before = a.show_connection_list;
    EventHandler::handle_key(&mut a, ctrl('o'));
    assert_ne!(a.show_connection_list, before);
    EventHandler::handle_key(&mut a, ctrl('o'));
    assert_eq!(a.show_connection_list, before);
}

#[test]
fn layout_figures() {
    assert!(screen_fits(10, 3));
    assert!(!screen_fits(9, 40));
    assert!(!screen_fits(80, 2));
    let mut a = app();
    assert_eq!(a.command_cursor_x(5), 7);
    a.command_input = "ls é".to_string();
    assert_eq!(a.command_cursor_x(5), 12);
    assert_eq!(a.command_cursor_x(u16::MAX - 3), u16::MAX);
    assert_eq!(status_bar_padding(30, "0123456789", "12:00:00"), 12);
    assert_eq!(status_bar_padding(10, "0123456789", "12:00:00"), 0);
    assert_eq!(status_bar_padding(20, "é", ""), 18);
    assert_eq!(local_files_title("/work"), " Local: /work ");
    assert_eq!(remote_files_title("/"), " Remote: / ");
}

#[test]
fn entering_a_directory_and_going_back() {
    for cwd in ["/", "/srv", "/a//b", "rel/dir", "."] {
        let mut a = connected_app();
        a.switch_panel(Panel::FileManager);
        a.remote_cwd = cwd.to_string();
        let child = oh_my_sftp::path::join_path(cwd, "logs");
        a.panels.file_manager.entries = vec![SftpEntry::from_listing(&child, true, None, None)];
        EventHandler::handle_key(&mut a, key(KeyCode::Enter));
        assert_eq!(a.remote_cwd, child);
        EventHandler::handle_key(&mut a, key(KeyCode::Backspace));
        assert_eq!(a.remote_cwd, cwd);
    }
}

#[test]
fn going_back_reaches_the_same_directory_as_a_path() {
    let mut a = connected_app();
    a.switch_panel(Panel::FileManager);
    a.remote_cwd = "/srv/".to_string();
    a.panels.file_manager.entries = vec![SftpEntry::from_listing("/srv/logs", true, None, None)];
    EventHandler::handle_key(&mut a, key(KeyCode::Enter));
    assert_eq!(a.remote_cwd, "/srv/logs");
    EventHandler::handle_key(&mut a, key(KeyCode::Backspace));
    assert_eq!(std::path::Path::new(&a.remote_cwd), std::path::Path::new("/srv/"));
}
