use oh_my_sftp::connection::SshConfigEntry;
use oh_my_sftp::ssh_config::{
    parse_ssh_config_content, parse_ssh_config_content_with_home, ssh_dir_from_home,
    SshConfigError, SshConfigParser,
};

#[test]
fn test_parse_basic_host() {
    let content = r#"
Host myserver
    HostName 192.168.1.100
    User admin
    Port 2222
    IdentityFile ~/.ssh/id_rsa
"#;
    let entries = parse_ssh_config_content(content, "/tmp/.ssh", &Vec::new()).unwrap();
    assert_eq!(entries.len(), 1);
    assert_eq!(entries[0].host_alias, "myserver");
    assert_eq!(entries[0].hostname, Some("192.168.1.100".to_string()));
    assert_eq!(entries[0].user, Some("admin".to_string()));
    assert_eq!(entries[0].port, Some(2222));
    assert!(entries[0].identity_file.is_some());
}

#[test]
fn test_skip_wildcard_host() {
    let content = r#"
Host *
    ForwardAgent yes

Host production
    HostName prod.example.com
    User deploy
"#;
    let entries = parse_ssh_config_content(content, "/tmp/.ssh", &Vec::new()).unwrap();
    assert_eq!(entries.len(), 1);
    assert_eq!(entries[0].host_alias, "production");
}

#[test]
fn test_multiple_hosts() {
    let content = r#"
Host server1
    HostName 10.0.0.1
    User root

Host server2
    HostName 10.0.0.2
    User admin
    Port 2222
"#;
    let entries = parse_ssh_config_content(content, "/tmp/.ssh", &Vec::new()).unwrap();
    assert_eq!(entries.len(), 2);
}

#[test]
fn identity_file_paths_are_expanded() {
    let content = "Host a\n  IdentityFile ~/.ssh/id_a\nHost b\n  IdentityFile keys/id_b\nHost c\n  IdentityFile /etc/id_c\nHost d\n  IdentityFile ~other/id_d\nHost e\n  IdentityFile ~\n";
    let entries = parse_ssh_config_content_with_home(content, "/tmp/.ssh", "/home/me", &Vec::new());
    let files: Vec<Option<String>> = entries.iter().map(|e| e.identity_file.clone()).collect();
    assert_eq!(
        files,
        vec![
            Some("/home/me/.ssh/id_a".to_string()),
            Some("/tmp/.ssh/keys/id_b".to_string()),
            Some("/etc/id_c".to_string()),
            Some("~other/id_d".to_string()),
            Some("/home/me".to_string()),
        ]
    );
}

#[test]
fn keywords_ignore_case_and_values_are_cleaned() {
    let content = "HOST box\n\tHOSTNAME \"quoted host\"\n  USER alice # trailing comment\n  ProxyJump bastion\n  ForwardAgent YeS\n  Port 70000\n  # a comment\n  Unknown thing\n";
    let entries = parse_ssh_config_content_with_home(content, "/s", "/h", &Vec::new());
    assert_eq!(entries.len(), 1);
    let e = &entries[0];
    assert_eq!(e.host_alias, "box");
    assert_eq!(e.hostname.as_deref(), Some("quoted host"));
    assert_eq!(e.user.as_deref(), Some("alice"));
    assert_eq!(e.proxy_jump.as_deref(), Some("bastion"));
    assert!(e.forward_agent);
    assert_eq!(e.port, None);
}

#[test]
fn directives_outside_a_host_block_are_ignored() {
    let content = "User nobody\nPort 22\nHost x\nPort +2200\nForwardAgent no\n";
    let entries = parse_ssh_config_content_with_home(content, "/s", "/h", &Vec::new());
    assert_eq!(entries.len(), 1);
    assert_eq!(entries[0].user, None);
    assert_eq!(entries[0].port, Some(2200));
    assert!(!entries[0].forward_agent);
}

#[test]
fn wildcard_host_closes_the_previous_block() {
    let content = "Host a\nHost web-*\nUser ignored\nHost b\r\nUser bob\r\n";
    let entries = parse_ssh_config_content_with_home(content, "/s", "/h", &Vec::new());
    assert_eq!(entries.len(), 2);
    assert_eq!(entries[0].host_alias, "a");
    assert_eq!(entries[0].user, None);
    assert_eq!(entries[1].host_alias, "b");
    assert_eq!(entries[1].user.as_deref(), Some("bob"));
}

#[test]
fn include_is_reported_and_its_entries_come_before_the_open_block() {
    let mut p = SshConfigParser::new();
    assert_eq!(p.feed_line("Host first", "/cfg", "/home/u"), None);
    let pattern = p.feed_line("Include conf.d/*", "/cfg", "/home/u");
    assert_eq!(pattern.as_deref(), Some("/cfg/conf.d/*"));
    let mut inc = SshConfigEntry::default();
    inc.host_alias = "included".to_string();
    p.add_included(vec![inc]);
    assert_eq!(p.feed_line("Include ~/x", "/cfg", "/home/u").as_deref(), Some("/home/u/x"));
    let entries = p.finish();
    let names: Vec<&str> = entries.iter().map(|e| e.host_alias.as_str()).collect();
    assert_eq!(names, vec!["included", "first"]);
}

#[test]
fn include_without_given_entries_adds_nothing() {
    let entries = parse_ssh_config_content_with_home("Include other\nHost z\n", "/s", "/h", &Vec::new());
    assert_eq!(entries.len(), 1);
    assert_eq!(entries[0].host_alias, "z");
}

fn entry(alias: &str) -> SshConfigEntry {
    let mut e = SshConfigEntry::default();
    e.host_alias = alias.to_string();
    e
}

#[test]
fn included_entries_come_at_the_include_line() {
    let content = "Host a\nInclude one/*\nHost b\ninclude two\nInclude three\n";
    let included = vec![vec![entry("x"), entry("y")], vec![entry("z")]];
    let entries = parse_ssh_config_content_with_home(content, "/s", "/h", &included);
    let names: Vec<&str> = entries.iter().map(|e| e.host_alias.as_str()).collect();
    assert_eq!(names, vec!["x", "y", "a", "z", "b"]);
    let entries = parse_ssh_config_content("Include conf.d/*.conf\nHost own\n", "/tmp/.ssh", &vec![vec![entry("inc")]]).unwrap();
    let names: Vec<&str> = entries.iter().map(|e| e.host_alias.as_str()).collect();
    assert_eq!(names, vec!["inc", "own"]);
}

#[test]
fn keyword_case_and_stray_lines_change_nothing() {
    let plain = "Host a\nHostName h\nUser u\n";
    let noisy = "User stray\nPort 1\n\n# c\nHOST a\n\n  hostname h\n# x\nuSeR u\n   \n";
    let p = parse_ssh_config_content_with_home(plain, "/s", "/h", &Vec::new());
    let q = parse_ssh_config_content_with_home(noisy, "/s", "/h", &Vec::new());
    assert_eq!(p.len(), q.len());
    assert_eq!(q[0].host_alias, "a");
    assert_eq!(q[0].hostname.as_deref(), Some("h"));
    assert_eq!(q[0].user.as_deref(), Some("u"));
    assert_eq!(q[0].port, None);
}

#[test]
fn ssh_dir_needs_a_home() {
    assert_eq!(ssh_dir_from_home(&Some("/home/u".to_string())), Ok("/home/u/.ssh".to_string()));
    assert_eq!(ssh_dir_from_home(&None), Err(SshConfigError::HomeDirNotFound));
}

#[test]
fn empty_and_comment_only_configs_have_no_entries() {
    assert!(parse_ssh_config_content_with_home("", "/s", "/h", &Vec::new()).is_empty());
    assert!(parse_ssh_config_content_with_home("# only\n\n   \n", "/s", "/h", &Vec::new()).is_empty());
    assert!(parse_ssh_config_content_with_home("Host\n", "/s", "/h", &Vec::new()).is_empty());
}
