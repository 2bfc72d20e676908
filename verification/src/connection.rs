//! The data of connections, transfers, panels and `~/.ssh/config` entries.
use vstd::prelude::*;
use crate::trusted::{current_username, new_uuid_string, is_uuid_text};

verus! {

/// How a connection authenticates.
#[derive(Debug)]
pub enum AuthMethod {
    /// A password, stored base64-encoded.
    Password(String),
    /// The path of a private key file.
    KeyFile(String),
    /// The SSH agent.
    Agent,
}

/// The state of a connection.
#[derive(Debug, Eq)]
pub enum ConnectionStatus {
    Disconnected,
    Connecting,
    Connected,
    Error(String),
}

/// A saved SSH connection.
#[derive(Debug)]
pub struct Connection {
    /// Unique identifier.
    pub id: String,
    /// Name shown in the list.
    pub name: String,
    /// Host address.
    pub host: String,
    /// SSH port.
    pub port: u16,
    pub username: String,
    pub auth_method: AuthMethod,
    /// Group label.
    pub group: String,
    pub note: String,
}

/// Direction of a file transfer.
#[derive(Debug, Clone, Copy, PartialEq, Eq, Structural)]
pub enum TransferDirection {
    Upload,
    Download,
}

/// State of a file transfer.
#[derive(Debug, Eq)]
pub enum TransferStatus {
    Pending,
    InProgress,
    Completed,
    Failed(String),
}

/// A file transfer in the queue.
#[derive(Debug)]
pub struct TransferTask {
    pub id: String,
    pub connection_id: String,
    pub direction: TransferDirection,
    pub local_path: String,
    pub remote_path: String,
    pub total_bytes: u64,
    pub transferred_bytes: u64,
    pub status: TransferStatus,
}

/// The connection that is open. The SSH session itself is held beside it by
/// the program that runs the network I/O.
#[derive(Debug)]
pub struct ActiveSession {
    pub connection_id: String,
    pub status: ConnectionStatus,
}

/// The panels of the interface.
#[derive(Debug, Clone, Copy, PartialEq, Eq, Structural)]
pub enum Panel {
    Terminal,
    FileManager,
    ResourceDashboard,
    ConnectionList,
}

/// A `Host` entry of `~/.ssh/config`.
#[derive(Debug)]
pub struct SshConfigEntry {
    pub host_alias: String,
    pub hostname: Option<String>,
    pub port: Option<u16>,
    pub user: Option<String>,
    pub identity_file: Option<String>,
    pub proxy_jump: Option<String>,
    pub forward_agent: bool,
}

/// The mathematical content of an `SshConfigEntry`.
pub struct SshConfigEntryView {
    pub host_alias: Seq<char>,
    pub hostname: Option<Seq<char>>,
    pub port: Option<u16>,
    pub user: Option<Seq<char>>,
    pub identity_file: Option<Seq<char>>,
    pub proxy_jump: Option<Seq<char>>,
    pub forward_agent: bool,
}

impl View for SshConfigEntry {
    type V = SshConfigEntryView;

    open spec fn view(&self) -> SshConfigEntryView {
        SshConfigEntryView {
            host_alias: self.host_alias@,
            hostname: self.hostname.deep_view(),
            port: self.port,
            user: self.user.deep_view(),
            identity_file: self.identity_file.deep_view(),
            proxy_jump: self.proxy_jump.deep_view(),
            forward_agent: self.forward_agent,
        }
    }
}

/// The views of a sequence of entries.
pub open spec fn entries_view(s: Seq<SshConfigEntry>) -> Seq<SshConfigEntryView> {
    s.map_values(|e: SshConfigEntry| e@)
}

/// An entry for `alias` with nothing else set.
pub open spec fn new_entry_view(alias: Seq<char>) -> SshConfigEntryView {
    SshConfigEntryView {
        host_alias: alias,
        hostname: None,
        port: None,
        user: None,
        identity_file: None,
        proxy_jump: None,
        forward_agent: false,
    }
}

impl Default for SshConfigEntry {
    fn default() -> (r: Self)
        ensures
            r@ == new_entry_view(Seq::empty()),
    {
        SshConfigEntry {
            host_alias: String::new(),
            hostname: None,
            port: None,
            user: None,
            identity_file: None,
            proxy_jump: None,
            forward_agent: false,
        }
    }
}

/// The text of the note of a connection imported from `~/.ssh/config`.
pub open spec fn imported_note(alias: Seq<char>) -> Seq<char> {
    "Imported from ~/.ssh/config: "@ + alias
}

impl Connection {
    /// A new connection with a fresh random identifier, no group and no note.
    pub fn new(name: &str, host: &str, port: u16, username: &str, auth: AuthMethod) -> (r: Self)
        ensures
            is_uuid_text(r.id@),
            r.name@ == name@,
            r.host@ == host@,
            r.port == port,
            r.username@ == username@,
            r.auth_method == auth,
            r.group@ == Seq::<char>::empty(),
            r.note@ == Seq::<char>::empty(),
    {
        Connection {
            id: new_uuid_string(),
            name: String::from_str(name),
            host: String::from_str(host),
            port,
            username: String::from_str(username),
            auth_method: auth,
            group: String::new(),
            note: String::new(),
        }
    }

    /// The connection for a `Host` entry of `~/.ssh/config`, where `user` is
    /// the name of the user running the program: the alias names it, the host
    /// is `HostName` (else the alias), the port is `Port` (else 22), the user is
    /// `User` (else `user`), the key file is `IdentityFile` (else the agent is
    /// used).
    pub fn from_ssh_config_entry_for_user(entry: SshConfigEntry, user: String) -> (r: Self)
        ensures
            is_uuid_text(r.id@),
            r.name@ == entry.host_alias@,
            r.host@ == (match entry.hostname {
                Some(h) => h@,
                None => entry.host_alias@,
            }),
            r.port == (match entry.port {
                Some(p) => p,
                None => 22u16,
            }),
            r.username@ == (match entry.user {
                Some(u) => u@,
                None => user@,
            }),
            r.auth_method.deep_view_auth() == (match entry.identity_file {
                Some(k) => AuthView::KeyFile(k@),
                None => AuthView::Agent,
            }),
            r.group@ == Seq::<char>::empty(),
            r.note@ == imported_note(entry.host_alias@),
    {
        let auth = match entry.identity_file {
            Some(key_path) => AuthMethod::KeyFile(key_path),
            None => AuthMethod::Agent,
        };
        let mut note = String::from_str("Imported from ~/.ssh/config: ");
        note.append(entry.host_alias.as_str());
        let host = match entry.hostname {
            Some(h) => h,
            None => entry.host_alias.clone(),
        };
        let username = match entry.user {
            Some(u) => u,
            None => user,
        };
        Connection {
            id: new_uuid_string(),
            name: entry.host_alias,
            host,
            port: match entry.port {
                Some(p) => p,
                None => 22,
            },
            username,
            auth_method: auth,
            group: String::new(),
            note,
        }
    }

    /// The connection for a `Host` entry of `~/.ssh/config`, as
    /// `from_ssh_config_entry_for_user` makes it for the user running the
    /// program (as the system reports it).
    pub fn from_ssh_config_entry(entry: SshConfigEntry) -> (r: Self)
        ensures
            entry.user matches Some(u) ==> r.username@ == u@,
            is_uuid_text(r.id@),
            r.name@ == entry.host_alias@,
            r.host@ == (match entry.hostname {
                Some(h) => h@,
                None => entry.host_alias@,
            }),
            r.port == (match entry.port {
                Some(p) => p,
                None => 22u16,
            }),
            r.auth_method.deep_view_auth() == (match entry.identity_file {
                Some(k) => AuthView::KeyFile(k@),
                None => AuthView::Agent,
            }),
            r.group@ == Seq::<char>::empty(),
            r.note@ == imported_note(entry.host_alias@),
    {
        let user = current_username();
        Self::from_ssh_config_entry_for_user(entry, user)
    }
}

/// The mathematical content of an `AuthMethod`.
pub enum AuthView {
    Password(Seq<char>),
    KeyFile(Seq<char>),
    Agent,
}

impl AuthMethod {
    pub open spec fn deep_view_auth(&self) -> AuthView {
        match self {
            AuthMethod::Password(p) => AuthView::Password(p@),
            AuthMethod::KeyFile(k) => AuthView::KeyFile(k@),
            AuthMethod::Agent => AuthView::Agent,
        }
    }
}


/// A copy of an optional string.
pub fn clone_opt_string(o: &Option<String>) -> (r: Option<String>)
    ensures
        r == *o,
{
    match o {
        Some(s) => Some(s.clone()),
        None => None,
    }
}

impl Clone for AuthMethod {
    fn clone(&self) -> (r: Self)
        ensures
            r == *self,
    {
        match self {
            AuthMethod::Password(p) => AuthMethod::Password(p.clone()),
            AuthMethod::KeyFile(k) => AuthMethod::KeyFile(k.clone()),
            AuthMethod::Agent => AuthMethod::Agent,
        }
    }
}

impl Clone for ConnectionStatus {
    fn clone(&self) -> (r: Self)
        ensures
            r == *self,
    {
        match self {
            ConnectionStatus::Disconnected => ConnectionStatus::Disconnected,
            ConnectionStatus::Connecting => ConnectionStatus::Connecting,
            ConnectionStatus::Connected => ConnectionStatus::Connected,
            ConnectionStatus::Error(e) => ConnectionStatus::Error(e.clone()),
        }
    }
}

impl Clone for Connection {
    fn clone(&self) -> (r: Self)
        ensures
            r == *self,
    {
        Connection {
            id: self.id.clone(),
            name: self.name.clone(),
            host: self.host.clone(),
            port: self.port,
            username: self.username.clone(),
            auth_method: self.auth_method.clone(),
            group: self.group.clone(),
            note: self.note.clone(),
        }
    }
}

impl Clone for TransferStatus {
    fn clone(&self) -> (r: Self)
        ensures
            r == *self,
    {
        match self {
            TransferStatus::Pending => TransferStatus::Pending,
            TransferStatus::InProgress => TransferStatus::InProgress,
            TransferStatus::Completed => TransferStatus::Completed,
            TransferStatus::Failed(e) => TransferStatus::Failed(e.clone()),
        }
    }
}

impl Clone for TransferTask {
    fn clone(&self) -> (r: Self)
        ensures
            r == *self,
    {
        TransferTask {
            id: self.id.clone(),
            connection_id: self.connection_id.clone(),
            direction: self.direction,
            local_path: self.local_path.clone(),
            remote_path: self.remote_path.clone(),
            total_bytes: self.total_bytes,
            transferred_bytes: self.transferred_bytes,
            status: self.status.clone(),
        }
    }
}

impl Clone for ActiveSession {
    fn clone(&self) -> (r: Self)
        ensures
            r == *self,
    {
        ActiveSession { connection_id: self.connection_id.clone(), status: self.status.clone() }
    }
}

impl Clone for SshConfigEntry {
    fn clone(&self) -> (r: Self)
        ensures
            r == *self,
    {
        SshConfigEntry {
            host_alias: self.host_alias.clone(),
            hostname: clone_opt_string(&self.hostname),
            port: self.port,
            user: clone_opt_string(&self.user),
            identity_file: clone_opt_string(&self.identity_file),
            proxy_jump: clone_opt_string(&self.proxy_jump),
            forward_agent: self.forward_agent,
        }
    }
}

/// Copies of the connections, in order.
pub fn clone_connections(v: &Vec<Connection>) -> (r: Vec<Connection>)
    ensures
        r@ == v@,
{
    let mut r: Vec<Connection> = Vec::new();
    let mut i: usize = 0;
    while i < v.len()
        invariant
            i <= v.len(),
            r@ == v@.take(i as int),
        decreases v.len() - i,
    {
        r.push(v[i].clone());
        assert(v@.take(i + 1) =~= v@.take(i as int).push(v@[i as int]));
        i += 1;
    }
    assert(v@.take(v.len() as int) =~= v@);
    r
}


impl PartialEq for ConnectionStatus {
    fn eq(&self, other: &Self) -> (r: bool) {
        match (self, other) {
            (ConnectionStatus::Disconnected, ConnectionStatus::Disconnected) => true,
            (ConnectionStatus::Connecting, ConnectionStatus::Connecting) => true,
            (ConnectionStatus::Connected, ConnectionStatus::Connected) => true,
            (ConnectionStatus::Error(a), ConnectionStatus::Error(b)) => a.eq(b),
            _ => false,
        }
    }
}

impl vstd::std_specs::cmp::PartialEqSpecImpl for ConnectionStatus {
    open spec fn obeys_eq_spec() -> bool {
        true
    }

    open spec fn eq_spec(&self, other: &Self) -> bool {
        match (self, other) {
            (ConnectionStatus::Disconnected, ConnectionStatus::Disconnected) => true,
            (ConnectionStatus::Connecting, ConnectionStatus::Connecting) => true,
            (ConnectionStatus::Connected, ConnectionStatus::Connected) => true,
            (ConnectionStatus::Error(a), ConnectionStatus::Error(b)) => a@ == b@,
            _ => false,
        }
    }
}

impl PartialEq for TransferStatus {
    fn eq(&self, other: &Self) -> (r: bool) {
        match (self, other) {
            (TransferStatus::Pending, TransferStatus::Pending) => true,
            (TransferStatus::InProgress, TransferStatus::InProgress) => true,
            (TransferStatus::Completed, TransferStatus::Completed) => true,
            (TransferStatus::Failed(a), TransferStatus::Failed(b)) => a.eq(b),
            _ => false,
        }
    }
}

impl vstd::std_specs::cmp::PartialEqSpecImpl for TransferStatus {
    open spec fn obeys_eq_spec() -> bool {
        true
    }

    open spec fn eq_spec(&self, other: &Self) -> bool {
        match (self, other) {
            (TransferStatus::Pending, TransferStatus::Pending) => true,
            (TransferStatus::InProgress, TransferStatus::InProgress) => true,
            (TransferStatus::Completed, TransferStatus::Completed) => true,
            (TransferStatus::Failed(a), TransferStatus::Failed(b)) => a@ == b@,
            _ => false,
        }
    }
}

} // verus!
