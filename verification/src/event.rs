//! Keyboard handling: global shortcuts, panel switching, and the keys of each
//! panel, including the built-in commands of the terminal panel.
use vstd::prelude::*;
use crate::app::{
    current_host_spec, App, ConnectionListState, EditorState, FileManagerState, LocalTerminal, PanelsState,
    RemoteTerminal,
};
use crate::connection::Panel;
use crate::path::{parent_path, parent_spec, same_path};
use crate::text::{
    chars_of, decimal, decimal_string, join_with, parse_bounded, parse_unsigned, split_words,
    string_from_chars, words,
};
use crate::trusted::lowercase;

verus! {

broadcast use vstd::string::group_string_axioms;

/// A key, as far as the handling below tells keys apart.
#[derive(Debug, Clone, Copy, PartialEq, Eq, Structural)]
pub enum KeyCode {
    Char(char),
    Tab,
    Esc,
    Up,
    Down,
    Enter,
    Backspace,
    /// Any other key.
    Other,
}

/// A key event: the key, whether Control was held, and whether the key was
/// pressed (rather than released or repeated).
#[derive(Debug, Clone, Copy, PartialEq, Eq, Structural)]
pub struct KeyEvent {
    pub code: KeyCode,
    pub ctrl: bool,
    pub press: bool,
}

/// What the program does after a key.
#[derive(Debug, PartialEq, Eq)]
pub enum EventResult {
    /// Go on.
    Continue,
    /// Quit.
    Quit,
    /// Open the saved connection with this identifier.
    Connect(String),
    /// Load the remote file at this path into the editor, which now shows it.
    OpenFile(String),
}

/// Where a key goes: a global shortcut, or the keys of a panel.
#[derive(Debug, Clone, Copy, PartialEq, Eq, Structural)]
pub enum Route {
    /// A key that is not a press.
    Ignore,
    Quit,
    /// Keys while a connection is edited.
    Editing,
    Tab,
    Esc,
    CtrlO,
    CtrlT,
    CtrlF,
    CtrlD,
    /// The connection list, while it is shown or is the panel.
    List,
    Terminal,
    Files,
    /// The dashboard, which takes no keys.
    Dashboard,
}

/// The keyboard handler.
pub struct EventHandler;

// ---------------------------------------------------------------------------
// Specification
// ---------------------------------------------------------------------------

/// `new` is `old` with only the status message changed, to `text`.
pub open spec fn status_set(old: App, new: App, text: Seq<char>) -> bool {
    new == (App { status_message: new.status_message, ..old }) && new.status_message@ == text
}

/// The panel that Tab moves to: Terminal, Files and Dashboard in turn while
/// connected (Files from the connection list), only the terminal otherwise.
pub open spec fn cycle_spec(a: App) -> Panel {
    if a.active_session is Some {
        match a.active_panel {
            Panel::Terminal => Panel::FileManager,
            Panel::FileManager => Panel::ResourceDashboard,
            Panel::ResourceDashboard => Panel::Terminal,
            Panel::ConnectionList => Panel::FileManager,
        }
    } else {
        Panel::Terminal
    }
}

/// A selection index after moving up.
pub open spec fn move_up(sel: usize) -> usize {
    if sel > 0 {
        (sel - 1) as usize
    } else {
        sel
    }
}

/// A selection index after moving down in a list of `len` items.
pub open spec fn move_down(sel: usize, len: nat) -> usize {
    if len > 0 && sel < len - 1 {
        (sel + 1) as usize
    } else {
        sel
    }
}

pub open spec fn is_up(code: KeyCode) -> bool {
    code == KeyCode::Up || code == KeyCode::Char('k')
}

pub open spec fn is_down(code: KeyCode) -> bool {
    code == KeyCode::Down || code == KeyCode::Char('j')
}

pub open spec fn with_conn_selection(a: App, sel: usize) -> App {
    App {
        panels: PanelsState {
            connection_list: ConnectionListState { selected_index: sel, ..a.panels.connection_list },
            ..a.panels
        },
        ..a
    }
}

pub open spec fn with_file_selection(a: App, sel: usize) -> App {
    App {
        panels: PanelsState {
            file_manager: FileManagerState { selected_index: sel, ..a.panels.file_manager },
            ..a.panels
        },
        ..a
    }
}

/// The keys of the connection list: the arrows and `k`/`j` move the
/// selection, Enter announces the connection to the selected server, `d`
/// closes the open connection.
pub open spec fn connection_list_post(old: App, key: KeyEvent, new: App) -> bool {
    let l = old.panels.connection_list;
    if is_up(key.code) {
        new == with_conn_selection(old, move_up(l.selected_index))
    } else if is_down(key.code) {
        new == with_conn_selection(old, move_down(l.selected_index, l.connections@.len()))
    } else if key.code == KeyCode::Enter {
        status_set(old, new, "Connecting..."@)
    } else if key.code == KeyCode::Char('d') {
        new == (App { active_session: None, status_message: new.status_message, ..old })
            && new.status_message@ == "Disconnected"@
    } else {
        new == old
    }
}

/// What the connection list asks of the program: on Enter, to open the
/// selected connection.
pub open spec fn connection_list_result(old: App, key: KeyEvent, r: EventResult) -> bool {
    let l = old.panels.connection_list;
    if key.code == KeyCode::Enter && l.selected_index < l.connections@.len() {
        r matches EventResult::Connect(id) && id@ == l.connections@[l.selected_index as int].id@
    } else {
        r == EventResult::Continue
    }
}

/// The editor showing the remote file at `path`, not yet loaded.
pub open spec fn opened_remote(ed: Option<EditorState>, path: Seq<char>) -> bool {
    ed matches Some(e) && e.file_path@ == path && e.content@.len() == 0 && e.is_remote && !e.modified
}

/// The keys of the file manager: the arrows and `k`/`j` move the selection,
/// Enter goes into the selected directory or opens the selected file in the
/// editor, Backspace goes to the parent directory.
pub open spec fn file_manager_post(old: App, key: KeyEvent, new: App) -> bool {
    let fm = old.panels.file_manager;
    if is_up(key.code) {
        new == with_file_selection(old, move_up(fm.selected_index))
    } else if is_down(key.code) {
        new == with_file_selection(old, move_down(fm.selected_index, fm.entries@.len()))
    } else if key.code == KeyCode::Enter {
        if fm.selected_index < fm.entries@.len() {
            let e = fm.entries@[fm.selected_index as int];
            if e.is_dir {
                &&& new == (App {
                    remote_cwd: new.remote_cwd,
                    status_message: new.status_message,
                    ..old
                })
                &&& new.remote_cwd@ == e.path@
                &&& new.status_message@ == "Changed to "@ + e.path@
            } else {
                &&& new == (App {
                    panels: PanelsState { editor: new.panels.editor, ..old.panels },
                    ..old
                })
                &&& opened_remote(new.panels.editor, e.path@)
            }
        } else {
            new == old
        }
    } else if key.code == KeyCode::Backspace {
        match parent_spec(old.remote_cwd@) {
            Some(p) => new == (App { remote_cwd: new.remote_cwd, ..old }) && new.remote_cwd@ == p,
            None => new == old,
        }
    } else {
        new == old
    }
}

/// What the file manager asks of the program: on Enter on a file, to load it.
pub open spec fn file_manager_result(old: App, key: KeyEvent, r: EventResult) -> bool {
    let fm = old.panels.file_manager;
    if key.code == KeyCode::Enter && fm.selected_index < fm.entries@.len()
        && !fm.entries@[fm.selected_index as int].is_dir {
        r matches EventResult::OpenFile(p) && p@ == fm.entries@[fm.selected_index as int].path@
    } else {
        r == EventResult::Continue
    }
}

/// The command named by the first word of a command line, lowercased.
pub open spec fn command_name(cmd: Seq<char>) -> Seq<char> {
    let ws = words(cmd);
    if ws.len() > 0 {
        crate::text::lowercase_text(ws[0])
    } else {
        Seq::empty()
    }
}

/// The second word of a command line, or nothing.
pub open spec fn command_arg(cmd: Seq<char>) -> Seq<char> {
    let ws = words(cmd);
    if ws.len() > 1 {
        ws[1]
    } else {
        Seq::empty()
    }
}

/// The line that lists connection `i`.
pub open spec fn connection_line(i: nat, c: crate::connection::Connection) -> Seq<char> {
    "  "@ + decimal(i) + ": "@ + c.name@ + " ("@ + c.username@ + "@"@ + c.host@ + ")"@
}

/// The listing of all connections.
pub open spec fn listing_text(cs: Seq<crate::connection::Connection>) -> Seq<char> {
    "Connections:\n"@ + join_with(
        Seq::new(cs.len(), |i: int| connection_line(i as nat, cs[i])),
        "\n"@,
    ) + "\n"@
}

/// The status message of `connect <index>`.
pub open spec fn connect_message(a: App, cmd: Seq<char>) -> Seq<char> {
    match parse_unsigned(command_arg(cmd), usize::MAX as nat) {
        Some(idx) => if idx < a.connections@.len() {
            "Connecting to "@ + a.connections@[idx as int].name@ + "..."@
        } else {
            "Index "@ + decimal(idx) + " out of range"@
        },
        None => "Usage: connect <index>"@,
    }
}

/// `clear`: both terminal texts emptied.
pub open spec fn cleared(old: App, new: App) -> bool {
    &&& new == (App {
        remote_terminal: RemoteTerminal {
            output: new.remote_terminal.output,
            ..old.remote_terminal
        },
        local_terminal: new.local_terminal,
        status_message: new.status_message,
        ..old
    })
    &&& new.remote_terminal.output@.len() == 0
    &&& new.status_message@ == "Cleared"@
    &&& match old.local_terminal {
        Some(l) => new.local_terminal matches Some(m) && m == (LocalTerminal {
            output: m.output,
            ..l
        }) && m.output@.len() == 0,
        None => new.local_terminal is None,
    }
}

/// What a built-in command does: `help`, `clear`, `exit`/`quit`, `list`,
/// `connect <index>`, `disconnect`, `status`; anything else is reported
/// unknown. The command name is matched without regard to case.
pub open spec fn builtin_post(old: App, cmd: Seq<char>, new: App) -> bool {
    let name = command_name(cmd);
    if name == "help"@ {
        status_set(old, new, "Showing help"@)
    } else if name == "clear"@ {
        cleared(old, new)
    } else if name == "exit"@ || name == "quit"@ {
        new == (App { should_quit: true, ..old })
    } else if name == "list"@ {
        if old.connections@.len() == 0 {
            status_set(old, new, "No connections saved"@)
        } else {
            &&& new == (App {
                remote_terminal: RemoteTerminal {
                    output: new.remote_terminal.output,
                    ..old.remote_terminal
                },
                status_message: new.status_message,
                ..old
            })
            &&& new.remote_terminal.output@ == listing_text(old.connections@)
            &&& new.status_message@ == decimal(old.connections@.len()) + " connections listed"@
        }
    } else if name == "connect"@ {
        status_set(old, new, connect_message(old, cmd))
    } else if name == "disconnect"@ {
        new == (App { active_session: None, status_message: new.status_message, ..old })
            && new.status_message@ == "Disconnected"@
    } else if name == "status"@ {
        status_set(
            old,
            new,
            if old.active_session is Some {
                "Connected to "@ + current_host_spec(old)->Some_0
            } else {
                "Not connected"@
            },
        )
    } else {
        status_set(old, new, "Unknown command: "@ + name + ". Type 'help' for available commands."@)
    }
}

/// The keys of the terminal panel: characters and Backspace edit the command
/// line; Enter runs it as a built-in command and empties it.
pub open spec fn terminal_post(old: App, key: KeyEvent, new: App) -> bool {
    match key.code {
        KeyCode::Char(c) => new == (App { command_input: new.command_input, ..old })
            && new.command_input@ == old.command_input@.push(c),
        KeyCode::Backspace => new == (App { command_input: new.command_input, ..old })
            && new.command_input@ == (if old.command_input@.len() > 0 {
            old.command_input@.drop_last()
        } else {
            old.command_input@
        }),
        KeyCode::Enter => {
            let emptied = App { command_input: new.command_input, ..old };
            &&& new.command_input@.len() == 0
            &&& if old.command_input@.len() == 0 {
                new == emptied
            } else {
                builtin_post(emptied, old.command_input@, new)
            }
        },
        _ => new == old,
    }
}

pub open spec fn is_ctrl_char(key: KeyEvent, c: char) -> bool {
    key.ctrl && key.code == KeyCode::Char(c)
}

/// Ctrl+C and Ctrl+Q quit.
pub open spec fn quits(key: KeyEvent) -> bool {
    key.press && (is_ctrl_char(key, 'c') || is_ctrl_char(key, 'q'))
}

/// Where a key goes. Only presses count. Ctrl+C and Ctrl+Q quit. While a
/// connection is edited only Esc acts. Then Tab, Esc, Ctrl+O, Ctrl+T, Ctrl+F
/// and Ctrl+D; any other key goes to the connection list while it is shown,
/// else to the panel shown.
pub open spec fn route(a: App, key: KeyEvent) -> Route {
    if !key.press {
        Route::Ignore
    } else if quits(key) {
        Route::Quit
    } else if a.editing_connection {
        Route::Editing
    } else if !key.ctrl && key.code == KeyCode::Tab {
        Route::Tab
    } else if !key.ctrl && key.code == KeyCode::Esc {
        Route::Esc
    } else if is_ctrl_char(key, 'o') {
        Route::CtrlO
    } else if is_ctrl_char(key, 't') {
        Route::CtrlT
    } else if is_ctrl_char(key, 'f') {
        Route::CtrlF
    } else if is_ctrl_char(key, 'd') {
        Route::CtrlD
    } else if a.show_connection_list || a.active_panel == Panel::ConnectionList {
        Route::List
    } else {
        match a.active_panel {
            Panel::Terminal => Route::Terminal,
            Panel::FileManager => Route::Files,
            _ => Route::Dashboard,
        }
    }
}

/// What a key does to the state. Quitting sets the quit flag; while editing,
/// Esc ends the editing. Tab cycles the panels, Esc returns to the terminal
/// and hides the list, Ctrl+O toggles the connection list, Ctrl+T shows the
/// terminal, Ctrl+F and Ctrl+D the files and the dashboard (only while
/// connected); the other keys act in the list or panel they go to.
pub open spec fn handle_key_post(old: App, key: KeyEvent, new: App) -> bool {
    match route(old, key) {
        Route::Ignore => new == old,
        Route::Quit => new == (App { should_quit: true, ..old }),
        Route::Editing => if key.code == KeyCode::Esc {
            new == (App { editing_connection: false, ..old })
        } else {
            new == old
        },
        Route::Tab => new == (App { active_panel: cycle_spec(old), ..old }),
        Route::Esc => new == (App {
            show_connection_list: false,
            active_panel: Panel::Terminal,
            ..old
        }),
        Route::CtrlO => new == (App { show_connection_list: !old.show_connection_list, ..old }),
        Route::CtrlT => new == (App {
            active_panel: Panel::Terminal,
            show_connection_list: false,
            ..old
        }),
        Route::CtrlF => if old.active_session is Some {
            new == (App { active_panel: Panel::FileManager, show_connection_list: false, ..old })
        } else {
            new == old
        },
        Route::CtrlD => if old.active_session is Some {
            new == (App {
                active_panel: Panel::ResourceDashboard,
                show_connection_list: false,
                ..old
            })
        } else {
            new == old
        },
        Route::List => connection_list_post(old, key, new),
        Route::Terminal => terminal_post(old, key, new),
        Route::Files => file_manager_post(old, key, new),
        Route::Dashboard => new == old,
    }
}

/// What the program is asked to do after a key.
pub open spec fn key_result(old: App, key: KeyEvent, r: EventResult) -> bool {
    match route(old, key) {
        Route::Quit => r == EventResult::Quit,
        Route::List => connection_list_result(old, key, r),
        Route::Files => file_manager_result(old, key, r),
        _ => r == EventResult::Continue,
    }
}

// ---------------------------------------------------------------------------
// Implementation
// ---------------------------------------------------------------------------

fn string_is(s: &String, lit: &str) -> (r: bool)
    ensures
        r == (s@ == lit@),
{
    crate::ssh_config::same_chars(&chars_of(s.as_str()), lit)
}

fn set_status(app: &mut App, text: &str)
    ensures
        status_set(*old(app), *final(app), text@),
{
    app.status_message = String::from_str(text);
}

/// Runs a built-in command.
fn execute_builtin(app: &mut App, cmd: &String)
    ensures
        builtin_post(*old(app), cmd@, *final(app)),
{
    let parts = split_words(&chars_of(cmd.as_str()));
    let ghost ws = parts@.map_values(|w: Vec<char>| w@);
    assert(ws == words(cmd@));
    let name = if parts.len() > 0 {
        lowercase(string_from_chars(&parts[0]).as_str())
    } else {
        String::new()
    };
    assert(name@ == command_name(cmd@));
    if string_is(&name, "help") {
        set_status(app, "Showing help");
    } else if string_is(&name, "clear") {
        app.remote_terminal.output = String::new();
        match &mut app.local_terminal {
            Some(local) => {
                local.output = String::new();
            },
            None => {},
        }
        app.status_message = String::from_str("Cleared");
    } else if string_is(&name, "exit") || string_is(&name, "quit") {
        app.should_quit = true;
    } else if string_is(&name, "list") {
        let count = app.connections.len();
        if count == 0 {
            set_status(app, "No connections saved");
        } else {
            let mut out = String::from_str("Connections:\n");
            let mut i: usize = 0;
            let ghost conns = app.connections@;
            let ghost all_lines = Seq::new(conns.len(), |k: int| connection_line(k as nat, conns[k]));
            while i < count
                invariant
                    i <= count == conns.len(),
                    conns == app.connections@,
                    all_lines == Seq::new(conns.len(), |k: int| connection_line(k as nat, conns[k])),
                    out@ == "Connections:\n"@ + join_with(all_lines.take(i as int), "\n"@),
                decreases count - i,
            {
                if i > 0 {
                    out.append("\n");
                }
                let c = &app.connections[i];
                out.append("  ");
                let idx = decimal_string(i as u64);
                out.append(idx.as_str());
                out.append(": ");
                out.append(c.name.as_str());
                out.append(" (");
                out.append(c.username.as_str());
                out.append("@");
                out.append(c.host.as_str());
                out.append(")");
                assert(all_lines.take(i + 1).drop_last() =~= all_lines.take(i as int));
                assert(all_lines.take(i + 1).last() == connection_line(i as nat, conns[i as int]));
                proof {
                    if i > 0 {
                        assert(out@ =~= "Connections:\n"@ + (join_with(all_lines.take(i as int), "\n"@)
                            + "\n"@ + connection_line(i as nat, conns[i as int])));
                    } else {
                        assert(all_lines.take(1) =~= seq![connection_line(0, conns[0])]);
                        assert(out@ =~= "Connections:\n"@ + connection_line(0, conns[0]));
                    }
                }
                i += 1;
            }
            assert(all_lines.take(count as int) =~= all_lines);
            out.append("\n");
            app.remote_terminal.output = out;
            let mut msg = decimal_string(count as u64);
            msg.append(" connections listed");
            app.status_message = msg;
        }
    } else if string_is(&name, "connect") {
        let arg = if parts.len() > 1 {
            sub_vec(&parts[1])
        } else {
            Vec::new()
        };
        assert(arg@ == command_arg(cmd@));
        match parse_bounded(&arg, usize::MAX as u64) {
            Some(idx) => {
                let idx = idx as usize;
                if idx < app.connections.len() {
                    let mut msg = String::from_str("Connecting to ");
                    msg.append(app.connections[idx].name.as_str());
                    msg.append("...");
                    app.status_message = msg;
                } else {
                    let mut msg = String::from_str("Index ");
                    let d = decimal_string(idx as u64);
                    msg.append(d.as_str());
                    msg.append(" out of range");
                    app.status_message = msg;
                }
            },
            None => {
                set_status(app, "Usage: connect <index>");
            },
        }
    } else if string_is(&name, "disconnect") {
        app.active_session = None;
        app.status_message = String::from_str("Disconnected");
    } else if string_is(&name, "status") {
        if app.is_connected() {
            let mut msg = String::from_str("Connected to ");
            match app.current_host() {
                Some(h) => msg.append(h.as_str()),
                None => {},
            }
            app.status_message = msg;
        } else {
            set_status(app, "Not connected");
        }
    } else {
        let mut msg = String::from_str("Unknown command: ");
        msg.append(name.as_str());
        msg.append(". Type 'help' for available commands.");
        app.status_message = msg;
    }
}

fn sub_vec(v: &Vec<char>) -> (r: Vec<char>)
    ensures
        r@ == v@,
{
    let r = crate::text::sub_chars(v, 0, v.len());
    assert(r@ =~= v@);
    r
}

impl EventHandler {
    /// Handles a key and says what the program does next.
    pub fn handle_key(app: &mut App, key: KeyEvent) -> (r: EventResult)
        ensures
            handle_key_post(*old(app), key, *final(app)),
            key_result(*old(app), key, r),
    {
        if !key.press {
            return EventResult::Continue;
        }
        if key.ctrl && (key.code == KeyCode::Char('c') || key.code == KeyCode::Char('q')) {
            app.should_quit = true;
            return EventResult::Quit;
        }
        if app.editing_connection {
            return Self::handle_editing(app, key);
        }
        if !key.ctrl {
            if key.code == KeyCode::Tab {
                Self::cycle_panel(app);
                return EventResult::Continue;
            }
            if key.code == KeyCode::Esc {
                app.show_connection_list = false;
                app.active_panel = Panel::Terminal;
                return EventResult::Continue;
            }
        }
        if key.ctrl {
            if key.code == KeyCode::Char('o') {
                app.show_connection_list = !app.show_connection_list;
                return EventResult::Continue;
            }
            if key.code == KeyCode::Char('t') {
                app.active_panel = Panel::Terminal;
                app.show_connection_list = false;
                return EventResult::Continue;
            }
            if key.code == KeyCode::Char('f') {
                if app.is_connected() {
                    app.active_panel = Panel::FileManager;
                    app.show_connection_list = false;
                }
                return EventResult::Continue;
            }
            if key.code == KeyCode::Char('d') {
                if app.is_connected() {
                    app.active_panel = Panel::ResourceDashboard;
                    app.show_connection_list = false;
                }
                return EventResult::Continue;
            }
        }
        if app.show_connection_list || app.active_panel == Panel::ConnectionList {
            return Self::handle_connection_list(app, key);
        }
        match app.active_panel {
            Panel::Terminal => Self::handle_terminal(app, key),
            Panel::FileManager => Self::handle_file_manager(app, key),
            _ => EventResult::Continue,
        }
    }

    fn cycle_panel(app: &mut App)
        ensures
            *final(app) == (App { active_panel: cycle_spec(*old(app)), ..*old(app) }),
    {
        let next = if app.is_connected() {
            match app.active_panel {
                Panel::Terminal => Panel::FileManager,
                Panel::FileManager => Panel::ResourceDashboard,
                Panel::ResourceDashboard => Panel::Terminal,
                Panel::ConnectionList => Panel::FileManager,
            }
        } else {
            Panel::Terminal
        };
        app.active_panel = next;
    }

    fn handle_connection_list(app: &mut App, key: KeyEvent) -> (r: EventResult)
        ensures
            connection_list_post(*old(app), key, *final(app)),
            connection_list_result(*old(app), key, r),
    {
        let code = key.code;
        if code == KeyCode::Up || code == KeyCode::Char('k') {
            if app.panels.connection_list.selected_index > 0 {
                app.panels.connection_list.selected_index = app.panels.connection_list.selected_index
                    - 1;
            }
            EventResult::Continue
        } else if code == KeyCode::Down || code == KeyCode::Char('j') {
            let len = app.panels.connection_list.connections.len();
            if len > 0 && app.panels.connection_list.selected_index < len - 1 {
                app.panels.connection_list.selected_index = app.panels.connection_list.selected_index
                    + 1;
            }
            EventResult::Continue
        } else if code == KeyCode::Enter {
            let sel = app.panels.connection_list.selected_index;
            let target = if sel < app.panels.connection_list.connections.len() {
                Some(app.panels.connection_list.connections[sel].id.clone())
            } else {
                None
            };
            set_status(app, "Connecting...");
            match target {
                Some(id) => EventResult::Connect(id),
                None => EventResult::Continue,
            }
        } else if code == KeyCode::Char('d') {
            app.active_session = None;
            app.status_message = String::from_str("Disconnected");
            EventResult::Continue
        } else {
            EventResult::Continue
        }
    }

    fn handle_terminal(app: &mut App, key: KeyEvent) -> (r: EventResult)
        ensures
            terminal_post(*old(app), key, *final(app)),
            r == EventResult::Continue,
    {
        match key.code {
            KeyCode::Char(c) => {
                crate::text::push_char(&mut app.command_input, c);
                EventResult::Continue
            },
            KeyCode::Backspace => {
                let mut v = chars_of(app.command_input.as_str());
                if v.len() > 0 {
                    v.pop();
                }
                app.command_input = string_from_chars(&v);
                EventResult::Continue
            },
            KeyCode::Enter => {
                let mut cmd = String::new();
                std::mem::swap(&mut cmd, &mut app.command_input);
                if !cmd.as_str().is_empty() {
                    execute_builtin(app, &cmd);
                }
                EventResult::Continue
            },
            _ => EventResult::Continue,
        }
    }

    fn handle_file_manager(app: &mut App, key: KeyEvent) -> (r: EventResult)
        ensures
            file_manager_post(*old(app), key, *final(app)),
            file_manager_result(*old(app), key, r),
    {
        let code = key.code;
        if code == KeyCode::Up || code == KeyCode::Char('k') {
            if app.panels.file_manager.selected_index > 0 {
                app.panels.file_manager.selected_index = app.panels.file_manager.selected_index - 1;
            }
            EventResult::Continue
        } else if code == KeyCode::Down || code == KeyCode::Char('j') {
            let len = app.panels.file_manager.entries.len();
            if len > 0 && app.panels.file_manager.selected_index < len - 1 {
                app.panels.file_manager.selected_index = app.panels.file_manager.selected_index + 1;
            }
            EventResult::Continue
        } else if code == KeyCode::Enter {
            let sel = app.panels.file_manager.selected_index;
            if sel < app.panels.file_manager.entries.len() {
                let path = app.panels.file_manager.entries[sel].path.clone();
                if app.panels.file_manager.entries[sel].is_dir {
                    let mut msg = String::from_str("Changed to ");
                    msg.append(path.as_str());
                    app.remote_cwd = path;
                    app.status_message = msg;
                    EventResult::Continue
                } else {
                    app.panels.editor = Some(
                        EditorState {
                            file_path: path.clone(),
                            content: String::new(),
                            is_remote: true,
                            modified: false,
                        },
                    );
                    EventResult::OpenFile(path)
                }
            } else {
                EventResult::Continue
            }
        } else if code == KeyCode::Backspace {
            match parent_path(app.remote_cwd.as_str()) {
                Some(p) => {
                    app.remote_cwd = p;
                },
                None => {},
            }
            EventResult::Continue
        } else {
            EventResult::Continue
        }
    }

    fn handle_editing(app: &mut App, key: KeyEvent) -> (r: EventResult)
        ensures
            r == EventResult::Continue,
            if key.code == KeyCode::Esc {
                *final(app) == (App { editing_connection: false, ..*old(app) })
            } else {
                *final(app) == *old(app)
            },
    {
        if key.code == KeyCode::Esc {
            app.editing_connection = false;
        }
        EventResult::Continue
    }
}


// ---------------------------------------------------------------------------
// Laws
// ---------------------------------------------------------------------------

/// The Tab key, pressed without Control.
pub open spec fn tab_key() -> KeyEvent {
    KeyEvent { code: KeyCode::Tab, ctrl: false, press: true }
}

/// While connected, three presses of Tab come back to the panel they started
/// from (the terminal, the files or the dashboard) and change nothing else.
pub proof fn law_tab_cycles_in_three(a: App, b: App, c: App, d: App)
    requires
        a.active_session is Some,
        !a.editing_connection,
        a.active_panel != Panel::ConnectionList,
        handle_key_post(a, tab_key(), b),
        handle_key_post(b, tab_key(), c),
        handle_key_post(c, tab_key(), d),
    ensures
        d == a,
{
}

/// Tab order while connected: Terminal, then Files, then Dashboard, then
/// Terminal again (from the connection list, Files); nothing else changes.
pub proof fn law_tab_order(a: App, b: App)
    requires
        a.active_session is Some,
        !a.editing_connection,
        handle_key_post(a, tab_key(), b),
    ensures
        b == (App { active_panel: b.active_panel, ..a }),
        a.active_panel == Panel::Terminal ==> b.active_panel == Panel::FileManager,
        a.active_panel == Panel::FileManager ==> b.active_panel == Panel::ResourceDashboard,
        a.active_panel == Panel::ResourceDashboard ==> b.active_panel == Panel::Terminal,
        a.active_panel == Panel::ConnectionList ==> b.active_panel == Panel::FileManager,
{
}

/// While not connected, Tab always shows the terminal.
pub proof fn law_tab_offline_stays_on_terminal(a: App, b: App)
    requires
        a.active_session is None,
        !a.editing_connection,
        handle_key_post(a, tab_key(), b),
    ensures
        b.active_panel == Panel::Terminal,
{
}

/// The selection of a list lies on an item (or is 0 for an empty list).
pub open spec fn selection_valid(sel: usize, len: nat) -> bool {
    sel < len || sel == 0
}

/// No key moves the selection of the connection list or of the file list off
/// its items, and no key changes the items themselves.
pub proof fn law_selection_stays_valid(a: App, key: KeyEvent, b: App)
    requires
        selection_valid(a.panels.connection_list.selected_index, a.panels.connection_list.connections@.len()),
        selection_valid(a.panels.file_manager.selected_index, a.panels.file_manager.entries@.len()),
        handle_key_post(a, key, b),
    ensures
        b.panels.connection_list.connections == a.panels.connection_list.connections,
        b.panels.file_manager.entries == a.panels.file_manager.entries,
        selection_valid(b.panels.connection_list.selected_index, b.panels.connection_list.connections@.len()),
        selection_valid(b.panels.file_manager.selected_index, b.panels.file_manager.entries@.len()),
{
}

/// Ctrl+C and Ctrl+Q quit from any state.
pub proof fn law_ctrl_c_quits(a: App, key: KeyEvent, b: App)
    requires
        quits(key),
        handle_key_post(a, key, b),
    ensures
        b.should_quit,
{
}


/// Ctrl+O pressed twice shows the connection list as it was (outside of
/// connection editing).
pub proof fn law_ctrl_o_twice_restores(a: App, b: App, c: App)
    requires
        !a.editing_connection,
        handle_key_post(a, KeyEvent { code: KeyCode::Char('o'), ctrl: true, press: true }, b),
        handle_key_post(b, KeyEvent { code: KeyCode::Char('o'), ctrl: true, press: true }, c),
    ensures
        c == a,
{
}

/// In the terminal panel, Backspace takes back the character just typed.
pub proof fn law_backspace_undoes_typing(a: App, ch: char, b: App, c: App)
    requires
        !a.editing_connection,
        !a.show_connection_list,
        a.active_panel == Panel::Terminal,
        handle_key_post(a, KeyEvent { code: KeyCode::Char(ch), ctrl: false, press: true }, b),
        handle_key_post(b, KeyEvent { code: KeyCode::Backspace, ctrl: false, press: true }, c),
    ensures
        c.command_input@ == a.command_input@,
        c == (App { command_input: c.command_input, ..a }),
{
    assert(b.command_input@.drop_last() =~= a.command_input@);
}

/// In the file manager, entering a listed directory whose parent is the
/// current directory (as paths compare) and pressing Backspace comes back to
/// that directory. (A name joined onto a clean directory gives such an entry,
/// with the parent equal even as text: `law_parent_of_join`.)
pub proof fn law_enter_then_backspace_returns(a: App, b: App, c: App)
    requires
        !a.editing_connection,
        !a.show_connection_list,
        a.active_panel == Panel::FileManager,
        a.panels.file_manager.selected_index < a.panels.file_manager.entries@.len(),
        a.panels.file_manager.entries@[a.panels.file_manager.selected_index as int].is_dir,
        parent_spec(a.panels.file_manager.entries@[a.panels.file_manager.selected_index as int].path@) matches Some(p)
            && same_path(p, a.remote_cwd@),
        handle_key_post(a, KeyEvent { code: KeyCode::Enter, ctrl: false, press: true }, b),
        handle_key_post(b, KeyEvent { code: KeyCode::Backspace, ctrl: false, press: true }, c),
    ensures
        b.remote_cwd@ == a.panels.file_manager.entries@[a.panels.file_manager.selected_index as int].path@,
        b.status_message@ == "Changed to "@ + b.remote_cwd@,
        same_path(c.remote_cwd@, a.remote_cwd@),
        c.active_panel == Panel::FileManager,
{
}

/// In the connection list, while it is shown or is the panel, Up and `k`
/// move the selection up one and Down and `j` down one, never past the ends;
/// nothing else changes.
pub proof fn law_list_selection_moves(a: App, key: KeyEvent, b: App)
    requires
        key.press,
        !quits(key),
        !a.editing_connection,
        a.show_connection_list || a.active_panel == Panel::ConnectionList,
        a.panels.connection_list.connections@.len() <= usize::MAX,
        is_up(key.code) || is_down(key.code),
        handle_key_post(a, key, b),
    ensures
        ({
            let i = a.panels.connection_list.selected_index;
            let n = a.panels.connection_list.connections@.len();
            &&& b == with_conn_selection(a, b.panels.connection_list.selected_index)
            &&& is_up(key.code) ==> b.panels.connection_list.selected_index == (if i > 0 { i - 1 } else { 0 })
            &&& is_down(key.code) ==> b.panels.connection_list.selected_index == (if n > 0 && i < n - 1 { i + 1 } else { i as int })
            &&& (n > 0 && i < n) ==> b.panels.connection_list.selected_index < n
        }),
{
    assert(route(a, key) == Route::List);
}

/// In the file manager, Up and `k` move the selection up one and Down and
/// `j` down one, never past the ends; nothing else changes.
pub proof fn law_file_selection_moves(a: App, key: KeyEvent, b: App)
    requires
        key.press,
        !quits(key),
        !a.editing_connection,
        !a.show_connection_list,
        a.active_panel == Panel::FileManager,
        a.panels.file_manager.entries@.len() <= usize::MAX,
        is_up(key.code) || is_down(key.code),
        handle_key_post(a, key, b),
    ensures
        ({
            let i = a.panels.file_manager.selected_index;
            let n = a.panels.file_manager.entries@.len();
            &&& b == with_file_selection(a, b.panels.file_manager.selected_index)
            &&& is_up(key.code) ==> b.panels.file_manager.selected_index == (if i > 0 { i - 1 } else { 0 })
            &&& is_down(key.code) ==> b.panels.file_manager.selected_index == (if n > 0 && i < n - 1 { i + 1 } else { i as int })
            &&& (n > 0 && i < n) ==> b.panels.file_manager.selected_index < n
        }),
{
    assert(route(a, key) == Route::Files);
}

/// A pressed key with Control held.
pub open spec fn ctrl_key(c: char) -> KeyEvent {
    KeyEvent { code: KeyCode::Char(c), ctrl: true, press: true }
}

/// A pressed key without Control.
pub open spec fn plain_key(code: KeyCode) -> KeyEvent {
    KeyEvent { code, ctrl: false, press: true }
}

/// The panel shortcuts, outside connection editing: Ctrl+F shows the file
/// manager and Ctrl+D the dashboard while a session is open (and do nothing
/// without one), hiding the connection list; Ctrl+T shows the terminal and
/// hides the list; Ctrl+O shows or hides the list; Esc shows the terminal
/// and hides the list. Nothing else changes, and the program goes on.
pub proof fn law_panel_shortcuts(a: App, key: KeyEvent, b: App, r: EventResult)
    requires
        !a.editing_connection,
        handle_key_post(a, key, b),
        key_result(a, key, r),
    ensures
        key == ctrl_key('f') ==> b == (if a.active_session is Some {
            App { active_panel: Panel::FileManager, show_connection_list: false, ..a }
        } else {
            a
        }),
        key == ctrl_key('d') ==> b == (if a.active_session is Some {
            App { active_panel: Panel::ResourceDashboard, show_connection_list: false, ..a }
        } else {
            a
        }),
        key == ctrl_key('t') ==> b == (App { active_panel: Panel::Terminal, show_connection_list: false, ..a }),
        key == ctrl_key('o') ==> b == (App { show_connection_list: !a.show_connection_list, ..a }),
        key == plain_key(KeyCode::Esc) ==> b == (App {
            active_panel: Panel::Terminal,
            show_connection_list: false,
            ..a
        }),
        (key == ctrl_key('f') || key == ctrl_key('d') || key == ctrl_key('t') || key == ctrl_key('o')
            || key == plain_key(KeyCode::Esc)) ==> r == EventResult::Continue,
{
}

/// Enter on the command line of the terminal panel (the list hidden, no
/// connection edited) empties it and runs its command, named by its first
/// word lowercased: `exit` and `quit` quit; `help` reports help; `disconnect`
/// closes the session; `clear` empties both terminal texts; `list` with no
/// saved connection says so; `status` without a session says so. Each
/// changes nothing else.
pub proof fn law_builtin_commands(a: App, b: App)
    requires
        !a.editing_connection,
        !a.show_connection_list,
        a.active_panel == Panel::Terminal,
        words(a.command_input@).len() > 0,
        handle_key_post(a, plain_key(KeyCode::Enter), b),
    ensures
        ({
            let name = crate::text::lowercase_text(words(a.command_input@)[0]);
            &&& b.command_input@.len() == 0
            &&& (name == "exit"@ || name == "quit"@) ==> b == (App {
                should_quit: true,
                command_input: b.command_input,
                ..a
            })
            &&& name == "help"@ ==> b == (App {
                status_message: b.status_message,
                command_input: b.command_input,
                ..a
            }) && b.status_message@ == "Showing help"@
            &&& name == "disconnect"@ ==> b == (App {
                active_session: None,
                status_message: b.status_message,
                command_input: b.command_input,
                ..a
            }) && b.status_message@ == "Disconnected"@
            &&& name == "clear"@ ==> b.remote_terminal.output@.len() == 0 && b.status_message@
                == "Cleared"@ && b.should_quit == a.should_quit && b.connections == a.connections
                && b.active_session == a.active_session && (b.local_terminal matches Some(l)
                ==> l.output@.len() == 0)
            &&& (name == "list"@ && a.connections@.len() == 0) ==> b == (App {
                status_message: b.status_message,
                command_input: b.command_input,
                ..a
            }) && b.status_message@ == "No connections saved"@
            &&& (name == "status"@ && a.active_session is None) ==> b == (App {
                status_message: b.status_message,
                command_input: b.command_input,
                ..a
            }) && b.status_message@ == "Not connected"@
        }),
{
    reveal_strlit("help");
    reveal_strlit("clear");
    reveal_strlit("exit");
    reveal_strlit("quit");
    reveal_strlit("list");
    reveal_strlit("connect");
    reveal_strlit("disconnect");
    reveal_strlit("status");
    assert(a.command_input@.len() > 0);
    let name = crate::text::lowercase_text(words(a.command_input@)[0]);
    assert(command_name(a.command_input@) == name);
    if name == "exit"@ || name == "quit"@ {
        assert(name[0] != "help"@[0]);
        assert(name[0] != "clear"@[0]);
    }
    if name == "clear"@ {
        assert(name.len() != "help"@.len());
        assert(cleared(App { command_input: b.command_input, ..a }, b));
    }
    if name == "list"@ {
        assert(name[0] != "help"@[0]);
        assert(name[0] != "clear"@[0]);
        assert(name[0] != "exit"@[0]);
        assert(name[0] != "quit"@[0]);
    }
    if name == "disconnect"@ || name == "status"@ {
        assert(name.len() != "help"@.len());
        assert(name.len() != "clear"@.len());
        assert(name.len() != "exit"@.len());
        assert(name.len() != "quit"@.len());
        assert(name.len() != "list"@.len());
        assert(name.len() != "connect"@.len());
    }
    if name == "status"@ {
        assert(name.len() != "disconnect"@.len());
    }
}

/// In the connection list (shown or the panel, no connection edited), Enter
/// asks to open the selected connection, `d` closes the open session; each
/// sets its status message and changes nothing else.
pub proof fn law_list_enter_and_d(a: App, key: KeyEvent, b: App, r: EventResult)
    requires
        !a.editing_connection,
        a.show_connection_list || a.active_panel == Panel::ConnectionList,
        key == plain_key(KeyCode::Enter) || key == plain_key(KeyCode::Char('d')),
        handle_key_post(a, key, b),
        key_result(a, key, r),
    ensures
        ({
            let l = a.panels.connection_list;
            &&& key == plain_key(KeyCode::Enter) ==> b == (App { status_message: b.status_message, ..a })
                && b.status_message@ == "Connecting..."@
            &&& (key == plain_key(KeyCode::Enter) && l.selected_index < l.connections@.len()) ==> (r matches EventResult::Connect(id)
                && id@ == l.connections@[l.selected_index as int].id@)
            &&& key == plain_key(KeyCode::Char('d')) ==> b == (App {
                active_session: None,
                status_message: b.status_message,
                ..a
            }) && b.status_message@ == "Disconnected"@ && r == EventResult::Continue
        }),
{
}

/// In the file manager (the list hidden, no connection edited), Enter on a
/// directory makes it the current directory; Enter on a file opens it in the
/// editor and asks to load it, leaving the directory as it is.
pub proof fn law_file_enter(a: App, b: App, r: EventResult)
    requires
        !a.editing_connection,
        !a.show_connection_list,
        a.active_panel == Panel::FileManager,
        a.panels.file_manager.selected_index < a.panels.file_manager.entries@.len(),
        handle_key_post(a, plain_key(KeyCode::Enter), b),
        key_result(a, plain_key(KeyCode::Enter), r),
    ensures
        ({
            let e = a.panels.file_manager.entries@[a.panels.file_manager.selected_index as int];
            &&& e.is_dir ==> b.remote_cwd@ == e.path@ && b.panels == a.panels && r == EventResult::Continue
            &&& !e.is_dir ==> b.remote_cwd == a.remote_cwd && (b.panels.editor matches Some(ed)
                && ed.file_path@ == e.path@ && ed.is_remote && !ed.modified) && (r matches EventResult::OpenFile(p)
                && p@ == e.path@)
        }),
{
}

} // verus!
