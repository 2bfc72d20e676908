use oh_my_sftp::connection::{ConnectionStatus, TransferDirection, TransferStatus, TransferTask};
use oh_my_sftp::resource::ResourceService;
use oh_my_sftp::sftp::{add_task, record_chunk, record_done, record_failed, record_start, update_task_status, SftpEntry};
use oh_my_sftp::ssh::{AuthAction, AuthEvent, AuthFailure, AuthState, PasswordError, SshService};
use oh_my_sftp::connection::AuthMethod;

fn task(id: &str) -> TransferTask {
    TransferTask {
        id: id.to_string(),
        connection_id: "c".to_string(),
        direction: TransferDirection::Upload,
        local_path: "/l".to_string(),
        remote_path: "/r".to_string(),
        total_bytes: 0,
        transferred_bytes: 0,
        status: TransferStatus::Pending,
    }
}

#[test]
fn entry_sizes() {
    let dir = SftpEntry::from_listing("/srv/data/", true, None, Some(5));
    assert_eq!(dir.name, "data");
    assert_eq!(dir.size, 0);
    assert_eq!(dir.mtime, 5);
    assert_eq!(dir.format_size(), "<DIR>");
    let small = SftpEntry::from_listing("/srv/a.txt", false, Some(999), None);
    assert_eq!(small.name, "a.txt");
    assert_eq!(small.format_size(), "999 B");
    let big = SftpEntry::from_listing("/srv/b.bin", false, Some(1_500_000), None);
    assert_eq!(big.format_size(), bytesize::ByteSize::b(1_500_000).to_string());
    assert_ne!(big.format_size(), "1500000");
    let root = SftpEntry::from_listing("/", true, None, None);
    assert_eq!(root.name, "");
}

#[test]
fn transfer_progress_updates_the_first_matching_task() {
    let mut q = Vec::new();
    add_task(&mut q, task("t1"));
    add_task(&mut q, task("t2"));
    add_task(&mut q, task("t2"));
    update_task_status(&mut q, "t2", TransferStatus::InProgress, 10, 100);
    assert!(matches!(q[1].status, TransferStatus::InProgress));
    assert_eq!(q[1].transferred_bytes, 10);
    assert_eq!(q[1].total_bytes, 100);
    assert!(matches!(q[2].status, TransferStatus::Pending));
    assert!(matches!(q[0].status, TransferStatus::Pending));
    update_task_status(&mut q, "missing", TransferStatus::Completed, 1, 1);
    assert_eq!(q.len(), 3);
    assert!(!q.iter().any(|t| matches!(t.status, TransferStatus::Completed)));
    update_task_status(&mut q, "t1", TransferStatus::Failed("boom".to_string()), 3, 4);
    assert!(matches!(q[0].status, TransferStatus::Failed(ref m) if m == "boom"));
}

#[test]
fn reading_command_outputs() {
    assert!(ResourceService::is_linux("Linux"));
    assert!(ResourceService::is_linux("GNU/Linux x"));
    assert!(!ResourceService::is_linux("Darwin"));
    assert!(!ResourceService::is_linux("Linu"));
    assert_eq!(ResourceService::parse_numbers("1 x 2 -3 +4"), vec![1, 2, 4]);
    assert_eq!(ResourceService::cpu_counters("cpu  10 20 30 40 50"), Some((40, 150)));
    assert_eq!(ResourceService::cpu_counters("cpu 1 2 3"), None);
    assert_eq!(ResourceService::cpu_counters(""), None);
    let huge = format!("cpu {} {} {} {}", u64::MAX, u64::MAX, 0, 5);
    assert_eq!(ResourceService::cpu_counters(&huge), Some((5, 2 * (u64::MAX as u128) + 5)));
    assert_eq!(ResourceService::number_pair("512 2048"), Some((512, 2048)));
    assert_eq!(ResourceService::number_pair("512"), None);
    assert_eq!(ResourceService::uptime_text("up 3 days, 2 hours"), "3 days, 2 hours");
    assert_eq!(ResourceService::uptime_text("up up 1 min"), "1 min");
    assert_eq!(ResourceService::uptime_text("10:00 up"), "10:00 up");
}

#[test]
fn stored_passwords() {
    assert_eq!(SshService::decode_password("c2VjcmV0"), Ok("secret".to_string()));
    assert_eq!(SshService::decode_password(""), Ok(String::new()));
    assert_eq!(SshService::decode_password("not base64!"), Err(PasswordError::InvalidBase64));
    assert_eq!(SshService::decode_password("//79"), Err(PasswordError::InvalidUtf8));
}

#[test]
fn statuses_compare_by_value() {
    assert_eq!(TransferStatus::Failed("x".to_string()), TransferStatus::Failed("x".to_string()));
    assert_ne!(TransferStatus::Failed("x".to_string()), TransferStatus::Failed("y".to_string()));
    assert_ne!(TransferStatus::Pending, TransferStatus::Completed);
    assert_eq!(ConnectionStatus::Connected, ConnectionStatus::Connected);
    assert_ne!(ConnectionStatus::Error("a".to_string()), ConnectionStatus::Disconnected);
}

#[test]
fn a_transfer_is_recorded_from_start_to_end() {
    let mut q = vec![task("a"), task("b")];
    record_start(&mut q, "b", 100);
    assert!(matches!(q[1].status, TransferStatus::InProgress));
    assert_eq!((q[1].transferred_bytes, q[1].total_bytes), (0, 100));
    let n = record_chunk(&mut q, "b", 0, 60, 100);
    assert_eq!(n, 60);
    let n = record_chunk(&mut q, "b", n, 40, 100);
    assert_eq!(n, 100);
    assert_eq!(q[1].transferred_bytes, 100);
    record_done(&mut q, "b", 100);
    assert!(matches!(q[1].status, TransferStatus::Completed));
    assert_eq!((q[1].transferred_bytes, q[1].total_bytes), (100, 100));
    assert!(matches!(q[0].status, TransferStatus::Pending));
    assert_eq!(q[0].transferred_bytes, 0);
}

#[test]
fn only_the_last_record_counts() {
    let mut once = vec![task("a"), task("x")];
    update_task_status(&mut once, "x", TransferStatus::Completed, 7, 7);
    let mut twice = vec![task("a"), task("x")];
    update_task_status(&mut twice, "x", TransferStatus::InProgress, 3, 9);
    update_task_status(&mut twice, "x", TransferStatus::Completed, 7, 7);
    assert_eq!(once.len(), twice.len());
    for (p, q) in once.iter().zip(twice.iter()) {
        assert_eq!(p.id, q.id);
        assert_eq!(p.status, q.status);
        assert_eq!((p.transferred_bytes, p.total_bytes), (q.transferred_bytes, q.total_bytes));
    }
}

#[test]
fn authentication_first_steps() {
    let (st, act) = SshService::auth_start(&AuthMethod::Password("c2VjcmV0".to_string()));
    assert_eq!(st, AuthState::Password);
    assert!(matches!(act, AuthAction::TryPassword(ref p) if p == "secret"));
    let (st, act) = SshService::auth_start(&AuthMethod::Password("%%".to_string()));
    assert_eq!(st, AuthState::Done);
    assert!(matches!(act, AuthAction::Fail(AuthFailure::StoredPassword(PasswordError::InvalidBase64))));
    let (st, act) = SshService::auth_start(&AuthMethod::KeyFile("/k/id".to_string()));
    assert_eq!(st, AuthState::KeyFile);
    assert!(matches!(act, AuthAction::TryKeyFile(ref p) if p == "/k/id"));
    let (st, act) = SshService::auth_start(&AuthMethod::Agent);
    assert_eq!(st, AuthState::Agent);
    assert!(matches!(act, AuthAction::OpenAgent));
}

#[test]
fn authentication_succeeds_only_on_the_sessions_yes() {
    let (st, act) = SshService::auth_step(AuthState::Password, AuthEvent::Accepted);
    assert_eq!(st, AuthState::Check);
    assert!(matches!(act, AuthAction::CheckSession));
    let (st, act) = SshService::auth_step(st, AuthEvent::Authenticated(true));
    assert_eq!(st, AuthState::Done);
    assert!(matches!(act, AuthAction::Succeed));
    let (_, act) = SshService::auth_step(AuthState::Check, AuthEvent::Authenticated(false));
    assert!(matches!(act, AuthAction::Fail(AuthFailure::NotAuthenticated)));
    let (_, act) = SshService::auth_step(AuthState::Password, AuthEvent::Refused);
    assert!(matches!(act, AuthAction::Fail(AuthFailure::PasswordRefused)));
    let (_, act) = SshService::auth_step(AuthState::KeyFile, AuthEvent::Refused);
    assert!(matches!(act, AuthAction::Fail(AuthFailure::KeyRefused)));
}

#[test]
fn agent_identities_are_tried_in_turn() {
    let (st, act) = SshService::auth_step(AuthState::Agent, AuthEvent::AgentReady { count: 2 });
    assert_eq!(st, AuthState::AgentIdentity { next: 0, count: 2 });
    assert!(matches!(act, AuthAction::TryAgentIdentity(0)));
    let (st, act) = SshService::auth_step(st, AuthEvent::Refused);
    assert_eq!(st, AuthState::AgentIdentity { next: 1, count: 2 });
    assert!(matches!(act, AuthAction::TryAgentIdentity(1)));
    let (st, act) = SshService::auth_step(st, AuthEvent::Refused);
    assert_eq!(st, AuthState::Done);
    assert!(matches!(act, AuthAction::Fail(AuthFailure::NoAgentIdentity)));
    let (_, act) = SshService::auth_step(AuthState::Agent, AuthEvent::AgentReady { count: 0 });
    assert!(matches!(act, AuthAction::Fail(AuthFailure::NoAgentIdentity)));
    let (_, act) = SshService::auth_step(AuthState::Agent, AuthEvent::AgentUnavailable);
    assert!(matches!(act, AuthAction::Fail(AuthFailure::AgentUnavailable)));
    let (_, act) = SshService::auth_step(AuthState::Agent, AuthEvent::AgentUnreachable);
    assert!(matches!(act, AuthAction::Fail(AuthFailure::AgentUnreachable)));
    let (_, act) = SshService::auth_step(AuthState::Agent, AuthEvent::AgentListFailed);
    assert!(matches!(act, AuthAction::Fail(AuthFailure::AgentListFailed)));
    let (st, act) = SshService::auth_step(AuthState::AgentIdentity { next: 0, count: 3 }, AuthEvent::Accepted);
    assert_eq!(st, AuthState::Check);
    assert!(matches!(act, AuthAction::CheckSession));
}

#[test]
fn a_failed_transfer_is_recorded() {
    let mut q = vec![task("a")];
    record_start(&mut q, "a", 50);
    record_failed(&mut q, "a", "disk full".to_string(), 20, 50);
    assert_eq!(q[0].status, TransferStatus::Failed("disk full".to_string()));
    assert_eq!((q[0].transferred_bytes, q[0].total_bytes), (20, 50));
}

#[test]
fn memory_fallback_figures() {
    assert_eq!(ResourceService::memory_fallback("300 800"), (300, 800));
    assert_eq!(ResourceService::memory_fallback("oops"), (0, 0));
}
