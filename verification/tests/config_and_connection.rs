use oh_my_sftp::config::{config_path_in, merge_ssh_connections, AppConfig, AppSettings};
use oh_my_sftp::connection::{AuthMethod, Connection, SshConfigEntry};

fn conn(name: &str, host: &str, user: &str) -> Connection {
    Connection::new(name, host, 22, user, AuthMethod::Agent)
}

#[test]
fn defaults() {
    let s = AppSettings::default();
    assert_eq!(s.refresh_interval_ms, 3000);
    assert_eq!(s.editor, "vim");
    assert_eq!(s.theme, "default");
    assert_eq!(s.connection_timeout_secs, 10);
    let c = AppConfig::default();
    assert!(c.connections.is_empty());
    assert_eq!(c.settings.refresh_interval_ms, 3000);
}

#[test]
fn merge_skips_known_accounts() {
    let mut config = AppConfig::default();
    config.connections.push(conn("saved", "h1", "u1"));
    let incoming = vec![
        conn("dup", "h1", "u1"),
        conn("other-user", "h1", "u2"),
        conn("new", "h2", "u1"),
        conn("dup-of-new", "h2", "u1"),
    ];
    merge_ssh_connections(&mut config, incoming);
    let names: Vec<&str> = config.connections.iter().map(|c| c.name.as_str()).collect();
    assert_eq!(names, vec!["saved", "other-user", "new"]);
}

#[test]
fn merging_twice_changes_nothing() {
    let mut config = AppConfig::default();
    let incoming = vec![conn("a", "h", "u"), conn("b", "h", "v")];
    merge_ssh_connections(&mut config, incoming.clone());
    let first: Vec<String> = config.connections.iter().map(|c| c.id.clone()).collect();
    merge_ssh_connections(&mut config, incoming);
    let second: Vec<String> = config.connections.iter().map(|c| c.id.clone()).collect();
    assert_eq!(first, second);
}

#[test]
fn config_path_under_home() {
    assert_eq!(config_path_in(&Some("/home/u".to_string())), "/home/u/.oh-my-sftp/config.json");
    assert_eq!(config_path_in(&None), "./.oh-my-sftp/config.json");
}

fn is_uuid(s: &str) -> bool {
    s.len() == 36
        && s.chars().enumerate().all(|(i, c)| {
            if [8, 13, 18, 23].contains(&i) { c == '-' } else { c.is_ascii_hexdigit() && !c.is_ascii_uppercase() }
        })
}

#[test]
fn new_connection_has_a_fresh_id() {
    let a = Connection::new("n", "host", 2200, "me", AuthMethod::Password("cHc=".to_string()));
    let b = Connection::new("n", "host", 2200, "me", AuthMethod::Agent);
    assert!(is_uuid(&a.id));
    assert_ne!(a.id, b.id);
    assert_eq!(a.name, "n");
    assert_eq!(a.host, "host");
    assert_eq!(a.port, 2200);
    assert_eq!(a.username, "me");
    assert!(a.group.is_empty() && a.note.is_empty());
}

#[test]
fn connection_from_config_entry() {
    let entry = SshConfigEntry {
        host_alias: "web".to_string(),
        hostname: Some("10.0.0.5".to_string()),
        port: None,
        user: Some("deploy".to_string()),
        identity_file: Some("/k/id".to_string()),
        proxy_jump: None,
        forward_agent: false,
    };
    let c = Connection::from_ssh_config_entry(entry);
    assert!(is_uuid(&c.id));
    assert_eq!(c.name, "web");
    assert_eq!(c.host, "10.0.0.5");
    assert_eq!(c.port, 22);
    assert_eq!(c.username, "deploy");
    assert!(matches!(c.auth_method, AuthMethod::KeyFile(ref k) if k == "/k/id"));
    assert_eq!(c.note, "Imported from ~/.ssh/config: web");

    let mut bare = SshConfigEntry::default();
    bare.host_alias = "alias-only".to_string();
    bare.port = Some(2022);
    let c = Connection::from_ssh_config_entry(bare);
    assert_eq!(c.host, "alias-only");
    assert_eq!(c.port, 2022);
    assert!(matches!(c.auth_method, AuthMethod::Agent));
}

#[test]
fn connection_for_a_given_user() {
    let mut bare = SshConfigEntry::default();
    bare.host_alias = "box".to_string();
    let c = Connection::from_ssh_config_entry_for_user(bare, "alice".to_string());
    assert_eq!(c.username, "alice");
    assert_eq!(c.host, "box");
    let mut with_user = SshConfigEntry::default();
    with_user.host_alias = "box".to_string();
    with_user.user = Some("bob".to_string());
    let c = Connection::from_ssh_config_entry_for_user(with_user, "alice".to_string());
    assert_eq!(c.username, "bob");
}
