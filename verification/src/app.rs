//! The state of the interface and what is derived from it for display.
use vstd::prelude::*;
use crate::config::AppSettings;
use crate::connection::{ActiveSession, Connection, ConnectionStatus, Panel, TransferTask};
use crate::sftp::SftpEntry;
use crate::text::{
    chars_of, count_char, decimal, decimal_string, has_char, join_chars, join_with, lemma_join_newlines,
    lemma_lines_have_no_newline, lemma_lines_len, lines, split_lines, string_from_chars,
};

verus! {

broadcast use vstd::string::group_string_axioms;

/// The local terminal's text. The pseudo-terminal behind it is held beside the
/// state by the program that runs it.
#[derive(Debug)]
pub struct LocalTerminal {
    pub output: String,
    pub scrollback: Vec<String>,
}

/// The remote terminal's text.
#[derive(Debug)]
pub struct RemoteTerminal {
    pub output: String,
    pub scrollback: Vec<String>,
}

/// The file manager panel.
#[derive(Debug)]
pub struct FileManagerState {
    pub entries: Vec<SftpEntry>,
    pub selected_index: usize,
    pub scroll_offset: usize,
}

/// A file open in the editor.
#[derive(Debug)]
pub struct EditorState {
    pub file_path: String,
    pub content: String,
    pub is_remote: bool,
    pub modified: bool,
}

/// The connection list panel.
#[derive(Debug)]
pub struct ConnectionListState {
    pub connections: Vec<Connection>,
    pub selected_index: usize,
    pub scroll_offset: usize,
}

/// The state of all panels.
#[derive(Debug)]
pub struct PanelsState {
    pub connection_list: ConnectionListState,
    pub file_manager: FileManagerState,
    pub editor: Option<EditorState>,
}

/// The state of the application. The handles of the SSH session and of the
/// local pseudo-terminal, the resource figures and the clock are held beside
/// it by the program that does the I/O.
#[derive(Debug)]
pub struct App {
    pub connections: Vec<Connection>,
    pub active_session: Option<ActiveSession>,
    pub active_panel: Panel,
    pub panels: PanelsState,
    pub local_terminal: Option<LocalTerminal>,
    pub remote_terminal: RemoteTerminal,
    pub local_cwd: String,
    pub remote_cwd: String,
    pub transfer_queue: Vec<TransferTask>,
    pub should_quit: bool,
    pub command_input: String,
    pub status_message: String,
    pub show_connection_list: bool,
    pub editing_connection: bool,
    pub settings: AppSettings,
    pub pty_init_done: bool,
}

/// The host of the first connection with identifier `id`, or `"unknown"`.
pub open spec fn host_for(conns: Seq<Connection>, id: Seq<char>) -> Seq<char>
    decreases conns.len(),
{
    if conns.len() == 0 {
        "unknown"@
    } else if conns[0].id@ == id {
        conns[0].host@
    } else {
        host_for(conns.drop_first(), id)
    }
}

/// The position of the first connection with identifier `id`, or `conns.len()`.
pub open spec fn connection_position(conns: Seq<Connection>, id: Seq<char>) -> int
    decreases conns.len(),
{
    if conns.len() == 0 {
        0
    } else if conns[0].id@ == id {
        0
    } else {
        1 + connection_position(conns.drop_first(), id)
    }
}

/// The host of the open connection, when one is open.
pub open spec fn current_host_spec(a: App) -> Option<Seq<char>> {
    match a.active_session {
        Some(s) => Some(host_for(a.connections@, s.connection_id@)),
        None => None,
    }
}

/// The name of a panel in the title bar.
pub open spec fn panel_name_spec(p: Panel) -> Seq<char> {
    match p {
        Panel::Terminal => "Terminal"@,
        Panel::FileManager => "Files"@,
        Panel::ResourceDashboard => "Dashboard"@,
        Panel::ConnectionList => "Connections"@,
    }
}

/// The help shown in place of a local terminal that could not be started.
pub open spec fn shortcut_help() -> Seq<char> {
    "oh-my-sftp - Terminal Mode\n\n  Ctrl+O  Connections\n  Ctrl+T  Terminal\n  Ctrl+F  Files (when connected)\n  Ctrl+D  Dashboard (when connected)\n  Tab     Next panel\n  Esc     Back to the terminal\n  Ctrl+C  Quit\n"@
}

/// The text of the terminal panel.
pub open spec fn terminal_output_spec(a: App) -> Seq<char> {
    if a.active_session is Some {
        if a.remote_terminal.output@.len() == 0 {
            "Connected to "@ + current_host_spec(a)->Some_0 + ".\nType 'help' for commands.\n"@
        } else {
            a.remote_terminal.output@
        }
    } else {
        match a.local_terminal {
            Some(l) => if l.output@.len() == 0 {
                "Local terminal ready.\nCtrl+O: connections | Ctrl+T: terminal | Ctrl+C: quit\n"@
            } else {
                l.output@
            },
            None => if a.pty_init_done {
                shortcut_help()
            } else {
                "Initializing terminal...\n"@
            },
        }
    }
}

/// At most the last 500 lines of a terminal text once it has more than 1000.
pub open spec fn limit_scrollback_spec(output: Seq<char>) -> Seq<char> {
    let ls = lines(output);
    if ls.len() > 1000 {
        join_with(ls.skip(ls.len() - 500), seq!['\n'])
    } else {
        output
    }
}

/// The length in bytes of the UTF-8 encoding of `s`, as `str::len` gives it.
pub open spec fn byte_len(s: Seq<char>) -> usize {
    vstd::utf8::encode_utf8(s).len() as usize
}

/// The column `a + b`, or the largest 16-bit column where that is beyond it.
pub open spec fn capped_column(a: int, b: int) -> u16 {
    if a + b > u16::MAX {
        u16::MAX
    } else {
        (a + b) as u16
    }
}

/// Whether a screen of `width` columns and `height` rows is large enough to
/// draw on: at least 10 columns and 3 rows.
pub fn screen_fits(width: u16, height: u16) -> (r: bool)
    ensures
        r == (width >= 10 && height >= 3),
{
    !(height < 3 || width < 10)
}

/// The blank columns of a status bar `width` columns wide between its left
/// text and the clock at its right end, counted in bytes of the texts; none
/// where the texts fill it.
pub fn status_bar_padding(width: u16, left: &str, clock: &str) -> (r: usize)
    requires
        byte_len(left@) + byte_len(clock@) <= usize::MAX,
    ensures
        r == (if width >= byte_len(left@) + byte_len(clock@) {
            width - (byte_len(left@) + byte_len(clock@))
        } else {
            0
        }),
{
    let used = left.len() + clock.len();
    (width as usize).saturating_sub(used)
}

/// The title of the local side of the file manager.
pub fn local_files_title(cwd: &str) -> (r: String)
    ensures
        r@ == " Local: "@ + cwd@ + " "@,
{
    let mut r = String::from_str(" Local: ");
    r.append(cwd);
    r.append(" ");
    r
}

/// The title of the remote side of the file manager.
pub fn remote_files_title(cwd: &str) -> (r: String)
    ensures
        r@ == " Remote: "@ + cwd@ + " "@,
{
    let mut r = String::from_str(" Remote: ");
    r.append(cwd);
    r.append(" ");
    r
}

/// How full a gauge is: up to 70, above 70, above 90.
#[derive(Debug, Clone, Copy, PartialEq, Eq, Structural)]
pub enum UsageLevel {
    Normal,
    High,
    Critical,
}

pub open spec fn usage_level_spec(percent: u16) -> UsageLevel {
    if percent > 90 {
        UsageLevel::Critical
    } else if percent > 70 {
        UsageLevel::High
    } else {
        UsageLevel::Normal
    }
}

/// The level of a memory or disk gauge at `percent`.
pub fn usage_level(percent: u16) -> (r: UsageLevel)
    ensures
        r == usage_level_spec(percent),
{
    if percent > 90 {
        UsageLevel::Critical
    } else if percent > 70 {
        UsageLevel::High
    } else {
        UsageLevel::Normal
    }
}

/// The name of a panel in the title bar.
pub fn panel_name(p: Panel) -> (r: String)
    ensures
        r@ == panel_name_spec(p),
{
    match p {
        Panel::Terminal => String::from_str("Terminal"),
        Panel::FileManager => String::from_str("Files"),
        Panel::ResourceDashboard => String::from_str("Dashboard"),
        Panel::ConnectionList => String::from_str("Connections"),
    }
}

/// The label of an entry in the remote file list.
pub fn file_entry_label(e: &SftpEntry) -> (r: String)
    ensures
        r@ == " "@ + (if e.is_dir {
            "[D]"@
        } else {
            "[F]"@
        }) + " "@ + e.name@,
{
    let mut r = String::from_str(" ");
    if e.is_dir {
        r.append("[D]");
    } else {
        r.append("[F]");
    }
    r.append(" ");
    r.append(e.name.as_str());
    r
}

/// The label of a connection in the connection list.
pub fn connection_label(c: &Connection) -> (r: String)
    ensures
        r@ == " "@ + c.name@ + " ("@ + c.username@ + "@"@ + c.host@ + ")"@,
{
    let mut r = String::from_str(" ");
    r.append(c.name.as_str());
    r.append(" (");
    r.append(c.username.as_str());
    r.append("@");
    r.append(c.host.as_str());
    r.append(")");
    r
}

/// At most the last 500 lines of a terminal text once it has more than 1000
/// lines, joined by `'\n'`; the text itself otherwise.
pub fn limit_scrollback(output: &str) -> (r: String)
    ensures
        r@ == limit_scrollback_spec(output@),
{
    let ls = split_lines(&chars_of(output));
    let ghost all = ls@.map_values(|l: Vec<char>| l@);
    if ls.len() <= 1000 {
        return String::from_str(output);
    }
    let first = ls.len() - 500;
    let mut tail: Vec<Vec<char>> = Vec::new();
    let mut i = first;
    while i < ls.len()
        invariant
            first <= i <= ls.len(),
            first == ls.len() - 500,
            all == ls@.map_values(|l: Vec<char>| l@),
            tail@.map_values(|l: Vec<char>| l@) == all.subrange(first as int, i as int),
        decreases ls.len() - i,
    {
        let ghost before = tail@.map_values(|l: Vec<char>| l@);
        let line = crate::text::sub_chars(&ls[i], 0, ls[i].len());
        assert(line@ =~= ls@[i as int]@);
        tail.push(line);
        assert(tail@.map_values(|l: Vec<char>| l@) =~= before.push(all[i as int]));
        assert(all.subrange(first as int, i + 1) =~= all.subrange(first as int, i as int).push(
            all[i as int],
        ));
        i += 1;
    }
    assert(all.subrange(first as int, ls.len() as int) =~= all.skip(first as int));
    let mut sep: Vec<char> = Vec::new();
    sep.push('\n');
    assert(sep@ =~= seq!['\n']);
    string_from_chars(&join_chars(&tail, &sep))
}

impl App {
    /// The state at start: no connections, the terminal panel, `"Ready"`,
    /// default settings, the remote directory `/` and the given local one.
    pub fn new(local_cwd: String) -> (r: Self)
        ensures
            r.connections@.len() == 0,
            r.active_session is None,
            r.active_panel == Panel::Terminal,
            r.panels.connection_list.connections@.len() == 0,
            r.panels.connection_list.selected_index == 0,
            r.panels.connection_list.scroll_offset == 0,
            r.panels.file_manager.entries@.len() == 0,
            r.panels.file_manager.selected_index == 0,
            r.panels.file_manager.scroll_offset == 0,
            r.panels.editor is None,
            r.local_terminal is None,
            r.remote_terminal.output@.len() == 0,
            r.remote_terminal.scrollback@.len() == 0,
            r.local_cwd == local_cwd,
            r.remote_cwd@ == "/"@,
            r.transfer_queue@.len() == 0,
            !r.should_quit,
            r.command_input@.len() == 0,
            r.status_message@ == "Ready"@,
            !r.show_connection_list,
            !r.editing_connection,
            r.settings.refresh_interval_ms == 3000,
            r.settings.editor@ == "vim"@,
            r.settings.theme@ == "default"@,
            r.settings.connection_timeout_secs == 10,
            !r.pty_init_done,
    {
        App {
            connections: Vec::new(),
            active_session: None,
            active_panel: Panel::Terminal,
            panels: PanelsState {
                connection_list: ConnectionListState {
                    connections: Vec::new(),
                    selected_index: 0,
                    scroll_offset: 0,
                },
                file_manager: FileManagerState {
                    entries: Vec::new(),
                    selected_index: 0,
                    scroll_offset: 0,
                },
                editor: None,
            },
            local_terminal: None,
            remote_terminal: RemoteTerminal { output: String::new(), scrollback: Vec::new() },
            local_cwd,
            remote_cwd: String::from_str("/"),
            transfer_queue: Vec::new(),
            should_quit: false,
            command_input: String::new(),
            status_message: String::from_str("Ready"),
            show_connection_list: false,
            editing_connection: false,
            settings: AppSettings::default(),
            pty_init_done: false,
        }
    }

    /// Shows `panel`.
    pub fn switch_panel(&mut self, panel: Panel)
        ensures
            *final(self) == (App { active_panel: panel, ..*old(self) }),
    {
        self.active_panel = panel;
    }

    /// The number of saved connections.
    pub fn connection_count(&self) -> (r: usize)
        ensures
            r == self.connections@.len(),
    {
        self.connections.len()
    }

    /// Whether a connection is open.
    pub fn is_connected(&self) -> (r: bool)
        ensures
            r == self.active_session is Some,
    {
        self.active_session.is_some()
    }

    /// The host of the open connection (`"unknown"` when no saved connection
    /// has its identifier); none when no connection is open.
    pub fn current_host(&self) -> (r: Option<String>)
        ensures
            r.deep_view() == current_host_spec(*self),
    {
        match &self.active_session {
            None => None,
            Some(s) => {
                let ghost all = self.connections@;
                let mut i: usize = 0;
                assert(all.skip(0) =~= all);
                while i < self.connections.len()
                    invariant
                        i <= self.connections.len(),
                        all == self.connections@,
                        self.active_session == Some(*s),
                        host_for(all, s.connection_id@) == host_for(all.skip(i as int), s.connection_id@),
                    decreases self.connections.len() - i,
                {
                    assert(all.skip(i as int)[0] == all[i as int]);
                    if self.connections[i].id == s.connection_id {
                        return Some(self.connections[i].host.clone());
                    }
                    assert(all.skip(i as int).drop_first() =~= all.skip(i + 1));
                    i += 1;
                }
                assert(all.skip(i as int).len() == 0);
                Some(String::from_str("unknown"))
            },
        }
    }

    /// The text of the terminal panel: the remote output when connected (a
    /// greeting while it is empty), else the local output (a hint while it is
    /// empty), else the shortcut help when the local terminal could not
    /// start, else a notice that it is starting.
    pub fn terminal_output(&self) -> (r: String)
        ensures
            r@ == terminal_output_spec(*self),
    {
        if self.is_connected() {
            if self.remote_terminal.output.as_str().is_empty() {
                let host = self.current_host();
                let mut r = String::from_str("Connected to ");
                match host {
                    Some(h) => r.append(h.as_str()),
                    None => {},
                }
                r.append(".\nType 'help' for commands.\n");
                r
            } else {
                self.remote_terminal.output.clone()
            }
        } else {
            match &self.local_terminal {
                Some(l) => if l.output.as_str().is_empty() {
                    String::from_str(
                        "Local terminal ready.\nCtrl+O: connections | Ctrl+T: terminal | Ctrl+C: quit\n",
                    )
                } else {
                    l.output.clone()
                },
                None => if self.pty_init_done {
                    String::from_str(
                        "oh-my-sftp - Terminal Mode\n\n  Ctrl+O  Connections\n  Ctrl+T  Terminal\n  Ctrl+F  Files (when connected)\n  Ctrl+D  Dashboard (when connected)\n  Tab     Next panel\n  Esc     Back to the terminal\n  Ctrl+C  Quit\n",
                    )
                } else {
                    String::from_str("Initializing terminal...\n")
                },
            }
        }
    }

    /// The title bar: the program and the panel shown.
    pub fn title_text(&self) -> (r: String)
        ensures
            r@ == " oh-my-sftp v0.1.0 | ["@ + panel_name_spec(self.active_panel) + "] "@,
    {
        let mut r = String::from_str(" oh-my-sftp v0.1.0 | [");
        let name = panel_name(self.active_panel);
        r.append(name.as_str());
        r.append("] ");
        r
    }

    /// The left part of the status bar: the status message, the number of
    /// connections and of transfers.
    pub fn status_bar_text(&self) -> (r: String)
        ensures
            r@ == " "@ + self.status_message@ + " | "@ + decimal(self.connections@.len()) + " conns | "@
                + decimal(self.transfer_queue@.len()) + " tx "@,
    {
        let mut r = String::from_str(" ");
        r.append(self.status_message.as_str());
        r.append(" | ");
        let n = decimal_string(self.connections.len() as u64);
        r.append(n.as_str());
        r.append(" conns | ");
        let m = decimal_string(self.transfer_queue.len() as u64);
        r.append(m.as_str());
        r.append(" tx ");
        r
    }

    /// The command line: the input after a prompt, or a cursor when empty.
    pub fn command_line_text(&self) -> (r: String)
        ensures
            r@ == (if self.command_input@.len() == 0 {
                "> _"@
            } else {
                "> "@ + self.command_input@
            }),
    {
        if self.command_input.as_str().is_empty() {
            String::from_str("> _")
        } else {
            let mut r = String::from_str("> ");
            r.append(self.command_input.as_str());
            r
        }
    }

    /// The column of the cursor on a command line whose first column is `x`:
    /// after the two columns of the prompt, one column per byte of the input,
    /// its length taken as a 16-bit number; each addition stops at the
    /// largest column.
    pub fn command_cursor_x(&self, x: u16) -> (r: u16)
        ensures
            r == capped_column(
                capped_column(x as int, 2) as int,
                (byte_len(self.command_input@) as u16) as int,
            ),
    {
        #[verifier::truncate]
        let n = self.command_input.as_str().len() as u16;
        x.saturating_add(2).saturating_add(n)
    }

    /// The position of the saved connection with identifier `id`, if any.
    pub fn connection_index(&self, id: &str) -> (r: Option<usize>)
        ensures
            r == (if connection_position(self.connections@, id@) < self.connections@.len() {
                Some(connection_position(self.connections@, id@) as usize)
            } else {
                None::<usize>
            }),
    {
        let ghost all = self.connections@;
        let mut i: usize = 0;
        assert(all.skip(0) =~= all);
        proof {
            lemma_position_bound(all, id@);
        }
        while i < self.connections.len()
            invariant
                i <= self.connections.len(),
                all == self.connections@,
                connection_position(all, id@) == i + connection_position(all.skip(i as int), id@),
                connection_position(all.skip(i as int), id@) <= all.skip(i as int).len(),
            decreases self.connections.len() - i,
        {
            assert(all.skip(i as int)[0] == all[i as int]);
            if crate::ssh_config::same_chars(&chars_of(self.connections[i].id.as_str()), id) {
                return Some(i);
            }
            assert(all.skip(i as int).drop_first() =~= all.skip(i + 1));
            proof {
                lemma_position_bound(all.skip(i + 1), id@);
            }
            i += 1;
        }
        assert(all.skip(i as int).len() == 0);
        None
    }

    /// The connection with identifier `id` is now open.
    pub fn on_connected(&mut self, id: String)
        ensures
            final(self).active_session == Some(
                ActiveSession { connection_id: id, status: ConnectionStatus::Connected },
            ),
            final(self).status_message@ == "Connected to "@ + host_for(old(self).connections@, id@),
            *final(self) == (App {
                active_session: final(self).active_session,
                status_message: final(self).status_message,
                ..*old(self)
            }),
    {
        self.active_session = Some(ActiveSession { connection_id: id, status: ConnectionStatus::Connected });
        let mut msg = String::from_str("Connected to ");
        match self.current_host() {
            Some(h) => msg.append(h.as_str()),
            None => {},
        }
        self.status_message = msg;
    }

    /// Opening a connection failed, for the reason `error`.
    pub fn on_connect_failed(&mut self, error: &str)
        ensures
            final(self).status_message@ == "Connection failed: "@ + error@,
            *final(self) == (App { status_message: final(self).status_message, ..*old(self) }),
    {
        let mut m = String::from_str("Connection failed: ");
        m.append(error);
        self.status_message = m;
    }

    /// Whether the local terminal is still being started.
    pub fn awaits_pty(&self) -> (r: bool)
        ensures
            r == (self.local_terminal is None && !self.pty_init_done),
    {
        self.local_terminal.is_none() && !self.pty_init_done
    }

    /// The local terminal has started.
    pub fn on_pty_ready(&mut self)
        ensures
            final(self).local_terminal matches Some(l) && l.output@.len() == 0
                && l.scrollback@.len() == 0,
            final(self).status_message@ == "Local terminal ready"@,
            *final(self) == (App {
                local_terminal: final(self).local_terminal,
                status_message: final(self).status_message,
                pty_init_done: true,
                ..*old(self)
            }),
    {
        self.local_terminal = Some(LocalTerminal { output: String::new(), scrollback: Vec::new() });
        self.status_message = String::from_str("Local terminal ready");
        self.pty_init_done = true;
    }

    /// The local terminal could not start, for the reason `error`.
    pub fn on_pty_failed(&mut self, error: &str)
        ensures
            final(self).status_message@ == "PTY unavailable: "@ + error@,
            *final(self) == (App {
                status_message: final(self).status_message,
                pty_init_done: true,
                ..*old(self)
            }),
    {
        let mut m = String::from_str("PTY unavailable: ");
        m.append(error);
        self.status_message = m;
        self.pty_init_done = true;
    }

    /// The thread starting the local terminal ended without an answer.
    pub fn on_pty_lost(&mut self)
        ensures
            final(self).status_message@ == "PTY init thread crashed"@,
            *final(self) == (App {
                status_message: final(self).status_message,
                pty_init_done: true,
                ..*old(self)
            }),
    {
        self.status_message = String::from_str("PTY init thread crashed");
        self.pty_init_done = true;
    }

    /// Whether the resource figures are due for a refresh, `elapsed_ms`
    /// milliseconds after the last one: only on the dashboard, while connected.
    pub fn resource_refresh_due(&self, elapsed_ms: u64) -> (r: bool)
        ensures
            r == (self.active_panel == Panel::ResourceDashboard && self.active_session is Some
                && elapsed_ms >= self.settings.refresh_interval_ms),
    {
        self.active_panel == Panel::ResourceDashboard && self.is_connected() && elapsed_ms
            >= self.settings.refresh_interval_ms
    }
}


proof fn lemma_position_bound(conns: Seq<Connection>, id: Seq<char>)
    ensures
        0 <= connection_position(conns, id) <= conns.len(),
    decreases conns.len(),
{
    if conns.len() > 0 {
        lemma_position_bound(conns.drop_first(), id);
    }
}

/// A limited terminal text never has more than 1000 lines.
pub proof fn law_scrollback_bounded(output: Seq<char>)
    ensures
        lines(limit_scrollback_spec(output)).len() <= 1000,
{
    let ls = lines(output);
    if ls.len() > 1000 {
        let tail = ls.skip(ls.len() - 500);
        lemma_lines_have_no_newline(output);
        assert forall|k: int| 0 <= k < tail.len() implies !has_char(#[trigger] tail[k], '\n') by {
            assert(tail[k] == ls[k + ls.len() - 500]);
        }
        lemma_join_newlines(tail);
        lemma_lines_len(join_with(tail, seq!['\n']));
    } else {
        lemma_lines_len(output);
    }
}

/// A terminal text of more than 1000 lines keeps exactly its last 500 lines,
/// joined by `'\n'` (so 499 line breaks remain).
pub proof fn law_long_scrollback_keeps_the_last_lines(output: Seq<char>)
    requires
        lines(output).len() > 1000,
    ensures
        limit_scrollback_spec(output) == join_with(
            lines(output).subrange(lines(output).len() - 500, lines(output).len() as int),
            seq!['\n'],
        ),
        count_char(limit_scrollback_spec(output), '\n') == 499,
{
    let ls = lines(output);
    let tail = ls.skip(ls.len() - 500);
    assert(tail =~= ls.subrange(ls.len() - 500, ls.len() as int));
    lemma_lines_have_no_newline(output);
    assert forall|k: int| 0 <= k < tail.len() implies !has_char(#[trigger] tail[k], '\n') by {
        assert(tail[k] == ls[k + ls.len() - 500]);
    }
    lemma_join_newlines(tail);
}

/// What the terminal panel shows: while a session is open, the remote output
/// when there is any, else a greeting naming the host; without a session,
/// the local terminal's output when there is any, else a hint of its keys;
/// without a local terminal, the shortcut help once starting it has failed,
/// else a notice that it is starting.
pub proof fn law_terminal_shows_the_right_text(a: App)
    ensures
        a.active_session is Some && a.remote_terminal.output@.len() > 0 ==> terminal_output_spec(a)
            == a.remote_terminal.output@,
        a.active_session is Some && a.remote_terminal.output@.len() == 0 ==> terminal_output_spec(a)
            == "Connected to "@ + host_for(a.connections@, a.active_session->Some_0.connection_id@)
            + ".\nType 'help' for commands.\n"@,
        a.active_session is None && (a.local_terminal matches Some(l) && l.output@.len() > 0)
            ==> terminal_output_spec(a) == a.local_terminal->Some_0.output@,
        a.active_session is None && (a.local_terminal matches Some(l) && l.output@.len() == 0)
            ==> terminal_output_spec(a)
            == "Local terminal ready.\nCtrl+O: connections | Ctrl+T: terminal | Ctrl+C: quit\n"@,
        a.active_session is None && a.local_terminal is None && a.pty_init_done ==> terminal_output_spec(a)
            == shortcut_help(),
        a.active_session is None && a.local_terminal is None && !a.pty_init_done ==> terminal_output_spec(a)
            == "Initializing terminal...\n"@,
{
}

/// A terminal text of at most 1000 lines is kept as it is.
pub proof fn law_short_scrollback_kept(output: Seq<char>)
    requires
        lines(output).len() <= 1000,
    ensures
        limit_scrollback_spec(output) == output,
{
}

/// While a session is open, the host shown is that of the first saved
/// connection with the session's identifier (`"unknown"` when none has it).
pub proof fn law_current_host_is_the_sessions(a: App, i: int)
    requires
        a.active_session is Some,
        0 <= i < a.connections@.len(),
        a.connections@[i].id@ == a.active_session->Some_0.connection_id@,
        forall|j: int| 0 <= j < i ==> (#[trigger] a.connections@[j]).id@ != a.active_session->Some_0.connection_id@,
    ensures
        current_host_spec(a) == Some(a.connections@[i].host@),
{
    lemma_host_for_first(a.connections@, a.active_session->Some_0.connection_id@, i);
}

proof fn lemma_host_for_first(conns: Seq<Connection>, id: Seq<char>, i: int)
    requires
        0 <= i < conns.len(),
        conns[i].id@ == id,
        forall|j: int| 0 <= j < i ==> (#[trigger] conns[j]).id@ != id,
    ensures
        host_for(conns, id) == conns[i].host@,
    decreases i,
{
    if i > 0 {
        assert(conns[0].id@ != id);
        assert forall|j: int| 0 <= j < i - 1 implies (#[trigger] conns.drop_first()[j]).id@ != id by {
            assert(conns.drop_first()[j] == conns[j + 1]);
        }
        lemma_host_for_first(conns.drop_first(), id, i - 1);
    }
}

} // verus!
