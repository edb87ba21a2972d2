use ay_terminal::config::{AuthType, ConnectionConfig};
use ay_terminal::handler::{ControlChars, Direction, EraseScope, Vt100Handler};
use ay_terminal::logger::{LogEntry, LogLevel, Logger};
use ay_terminal::registry::{ConnectError, CreateError, SessionError, SessionRegistry};
use ay_terminal::screen::Pen;
use ay_terminal::session::{
    classify_ssh_output, connect_error, is_fatal, is_password_prompt, is_recoverable, password_reply, should_idle,
    ChannelState, FailureKind, IoErrorKind, ReadEvent, MAX_WRITES_PER_TICK,
};

fn bob() -> ConnectionConfig {
    ConnectionConfig {
        name: "example".to_string(),
        host: "example.com".to_string(),
        port: 22,
        username: "bob".to_string(),
        auth_type: AuthType::Password,
        password: Some("secret".to_string()),
        key_file: None,
        description: String::new(),
    }
}

#[test]
fn create_connect_disconnect() {
    let mut reg = SessionRegistry::new();
    assert_eq!(reg.create("s1", bob(), (80, 24), Ok(())), Ok(()));
    assert!(reg.is_connected("s1"));
    assert!(reg.disconnect("s1"));
    assert!(!reg.is_connected("s1"));
    assert!(!reg.disconnect("s1"));
}

#[test]
fn create_duplicate_id_fails() {
    let mut reg = SessionRegistry::new();
    assert_eq!(reg.create("s1", bob(), (80, 24), Ok(())), Ok(()));
    reg.execute("s1", "ls\n").unwrap();
    assert_eq!(reg.create("s1", bob(), (80, 24), Ok(())), Err(CreateError::DuplicateId));
    assert_eq!(reg.session_ids(), vec!["s1".to_string()]);
    assert_eq!(reg.take_commands("s1", 10).unwrap(), vec![b"ls\n".to_vec()]);
    assert!(reg.disconnect("s1"));
    assert_eq!(reg.create("s1", bob(), (80, 24), Ok(())), Ok(()));
    assert_eq!(reg.take_commands("s1", 10).unwrap(), Vec::<Vec<u8>>::new());
}

#[test]
fn failed_connect_reported_for_taken_id() {
    let mut reg = SessionRegistry::new();
    reg.create("s1", bob(), (80, 24), Ok(())).unwrap();
    let err = ConnectError::Handshake("no common cipher".to_string());
    assert_eq!(reg.create("s1", bob(), (80, 24), Err(err.clone())), Err(CreateError::Connect(err)));
    assert!(reg.is_connected("s1"));
    assert_eq!(reg.session_ids(), vec!["s1".to_string()]);
}

#[test]
fn missing_secret_is_an_auth_error() {
    assert_eq!(bob().check_credentials(), Ok(()));
    let mut no_pw = bob();
    no_pw.password = None;
    assert!(matches!(no_pw.check_credentials(), Err(ConnectError::Auth(_))));
    let mut key = bob();
    key.auth_type = AuthType::PublicKey;
    assert!(matches!(key.check_credentials(), Err(ConnectError::Auth(_))));
    key.key_file = Some("/home/bob/.ssh/id_ed25519".to_string());
    assert_eq!(key.check_credentials(), Ok(()));
}

#[test]
fn create_reports_connect_errors() {
    let mut reg = SessionRegistry::new();
    let err = ConnectError::Auth("denied".to_string());
    assert_eq!(reg.create("s1", bob(), (80, 24), Err(err.clone())), Err(CreateError::Connect(err)));
    assert!(!reg.is_connected("s1"));
    let t = ConnectError::Transport("no route".to_string());
    assert_eq!(reg.create("s1", bob(), (80, 24), Err(t.clone())), Err(CreateError::Connect(t)));
    let h = ConnectError::Handshake("kex".to_string());
    assert_eq!(reg.create("s1", bob(), (80, 24), Err(h.clone())), Err(CreateError::Connect(h)));
    assert!(reg.session_ids().is_empty());
}

#[test]
fn execute_keeps_call_order() {
    let mut reg = SessionRegistry::new();
    reg.create("a", bob(), (80, 24), Ok(())).unwrap();
    reg.create("b", bob(), (80, 24), Ok(())).unwrap();
    assert_eq!(reg.execute("a", "echo one\n"), Ok(()));
    assert_eq!(reg.execute("a", "echo two\n"), Ok(()));
    assert_eq!(reg.execute("b", "pwd\n"), Ok(()));
    let cmds = reg.take_commands("a", MAX_WRITES_PER_TICK).unwrap();
    assert_eq!(cmds, vec![b"echo one\n".to_vec(), b"echo two\n".to_vec()]);
    assert_eq!(reg.take_commands("b", 10).unwrap(), vec![b"pwd\n".to_vec()]);
}

#[test]
fn take_commands_is_bounded() {
    let mut reg = SessionRegistry::new();
    reg.create("a", bob(), (80, 24), Ok(())).unwrap();
    for i in 0..12 {
        reg.execute("a", &format!("c{}", i)).unwrap();
    }
    let first = reg.take_commands("a", MAX_WRITES_PER_TICK).unwrap();
    assert_eq!(first.len(), 10);
    assert_eq!(first[0], b"c0".to_vec());
    assert_eq!(first[9], b"c9".to_vec());
    let rest = reg.take_commands("a", MAX_WRITES_PER_TICK).unwrap();
    assert_eq!(rest, vec![b"c10".to_vec(), b"c11".to_vec()]);
}

#[test]
fn unknown_and_closed_sessions() {
    let mut reg = SessionRegistry::new();
    assert_eq!(reg.execute("x", "ls"), Err(SessionError::SessionNotFound));
    assert_eq!(reg.read_output("x"), Err(SessionError::SessionNotFound));
    assert_eq!(reg.take_commands("x", 1), Err(SessionError::SessionNotFound));
    assert_eq!(reg.push_output("x", b"a"), Err(SessionError::SessionNotFound));
    assert_eq!(reg.resize("x", 1, 1), Err(SessionError::SessionNotFound));
    reg.create("s", bob(), (80, 24), Ok(())).unwrap();
    reg.push_output("s", b"bye").unwrap();
    assert!(reg.mark_closed("s"));
    assert!(!reg.is_connected("s"));
    assert_eq!(reg.execute("s", "ls"), Err(SessionError::SessionClosed));
    assert_eq!(reg.read_output("s"), Err(SessionError::SessionClosed));
    assert_eq!(reg.resize("s", 100, 30), Err(SessionError::SessionClosed));
    assert_eq!(reg.size_of("s"), Ok((80, 24)));
}

#[test]
fn output_is_read_in_order_and_drained() {
    let mut reg = SessionRegistry::new();
    reg.create("s", bob(), (80, 24), Ok(())).unwrap();
    assert_eq!(reg.read_output("s"), Ok(Vec::new()));
    reg.push_output("s", b"hello ").unwrap();
    reg.push_output("s", b"world").unwrap();
    assert_eq!(reg.read_output("s"), Ok(b"hello world".to_vec()));
    assert_eq!(reg.read_output("s"), Ok(Vec::new()));
}

#[test]
fn registry_keeps_config_and_size() {
    let mut reg = SessionRegistry::new();
    reg.create("s", bob(), (80, 24), Ok(())).unwrap();
    assert_eq!(reg.connection_config("s").unwrap().host, "example.com");
    assert!(reg.connection_config("t").is_none());
    assert_eq!(reg.size_of("s"), Ok((80, 24)));
    assert_eq!(reg.resize("s", 120, 40), Ok(()));
    assert_eq!(reg.size_of("s"), Ok((120, 40)));
    assert_eq!(reg.size_of("t"), Err(SessionError::SessionNotFound));
}

#[test]
fn config_default_and_secret() {
    let c = ConnectionConfig::default();
    assert_eq!(c.port, 22);
    assert_eq!(c.auth_type, AuthType::Password);
    assert!(c.host.is_empty() && c.password.is_none() && c.key_file.is_none());
    assert_eq!(AuthType::default(), AuthType::Password);
    let b = bob();
    assert_eq!(b.secret().map(|s| s.as_str()), Some("secret"));
    let mut k = bob();
    k.auth_type = AuthType::PublicKey;
    k.key_file = Some("/home/bob/.ssh/id_ed25519".to_string());
    assert_eq!(k.secret().map(|s| s.as_str()), Some("/home/bob/.ssh/id_ed25519"));
}

#[test]
fn channel_read_outcomes() {
    let mut ch = ChannelState::new();
    assert_eq!(ch.on_read(ReadEvent::Data(b"x".to_vec())), Ok(b"x".to_vec()));
    assert_eq!(ch.on_read(ReadEvent::NoData), Ok(Vec::new()));
    assert_eq!(ch.on_read(ReadEvent::Failed(IoErrorKind::WouldBlock)), Ok(Vec::new()));
    assert_eq!(ch.on_read(ReadEvent::Failed(IoErrorKind::TimedOut)), Ok(Vec::new()));
    assert_eq!(ch.on_read(ReadEvent::Failed(IoErrorKind::Interrupted)), Err(IoErrorKind::Interrupted));
    assert_eq!(ch.on_read(ReadEvent::Failed(IoErrorKind::Other)), Err(IoErrorKind::Other));
    assert!(ch.is_alive());
    assert_eq!(ch.on_read(ReadEvent::Failed(IoErrorKind::BrokenPipe)), Err(IoErrorKind::BrokenPipe));
    assert!(!ch.is_alive());
    let mut eof = ChannelState::new();
    assert_eq!(eof.on_read(ReadEvent::PeerClosed), Ok(Vec::new()));
    assert!(!eof.is_alive());
    let mut w = ChannelState::new();
    w.on_write(true);
    assert!(w.is_alive());
    w.on_write(false);
    assert!(!w.is_alive());
    assert!(is_recoverable(IoErrorKind::TimedOut));
    assert!(!is_recoverable(IoErrorKind::Interrupted));
    assert!(!is_recoverable(IoErrorKind::ConnectionReset));
    assert!(is_fatal(IoErrorKind::UnexpectedEof));
    assert!(!is_fatal(IoErrorKind::Other));
    assert!(should_idle(0, 0));
    assert!(!should_idle(1, 0));
}

#[test]
fn handler_scans_sequences() {
    let h = Vt100Handler::new();
    assert_eq!(h.handle_clear_screen("a\x1b[2Jb"), Some(EraseScope::All));
    assert_eq!(h.handle_clear_screen("\x1b[1J"), Some(EraseScope::StartToCursor));
    assert_eq!(h.handle_clear_screen("\x1b[J"), Some(EraseScope::CursorToEnd));
    assert_eq!(h.handle_clear_screen("\x1b[0J"), Some(EraseScope::CursorToEnd));
    assert_eq!(h.handle_clear_screen("plain"), None);
    assert_eq!(h.handle_clear_line("\x1b[2K"), Some(EraseScope::All));
    assert_eq!(h.handle_clear_line("\x1b[K"), Some(EraseScope::CursorToEnd));
    assert_eq!(h.handle_clear_line("\x1b[2J"), None);
    assert_eq!(h.handle_cursor_move("\x1b[B\x1b[A"), Some(Direction::Up));
    assert_eq!(h.handle_cursor_move("\x1b[D"), Some(Direction::Left));
    assert_eq!(h.handle_cursor_move("\x1b[C"), Some(Direction::Right));
    assert_eq!(h.handle_cursor_move("x"), None);
    assert_eq!(h.handle_reset_attributes(), Pen::plain());
    assert_eq!(
        h.handle_control_chars("a\x07\tb\r\n"),
        ControlChars { bell: true, tab: true, line_feed: true, carriage_return: true }
    );
    assert_eq!(
        h.handle_control_chars("ab\n"),
        ControlChars { bell: false, tab: false, line_feed: true, carriage_return: false }
    );
    assert_eq!(h.parse_cursor_position("\x1b[H"), Some((1, 1)));
    assert_eq!(h.parse_cursor_position("\x1b[2;3H"), None);
}

#[test]
fn logger_levels_and_lines() {
    let mut l = Logger::new(Some("/tmp/app.log".to_string()));
    assert!(l.should_log(&LogLevel::Debug));
    assert!(l.debug("VT100", "x").is_some());
    l.set_min_level(LogLevel::Warn);
    assert!(l.should_log(&LogLevel::Error));
    assert!(l.should_log(&LogLevel::Warn));
    assert!(!l.should_log(&LogLevel::Info));
    assert!(l.info("SSH", "x").is_none());
    let e: LogEntry = l.error("SSH", "failed").unwrap();
    assert_eq!(e.level, LogLevel::Error);
    assert_eq!(e.format_for_file("2024-01-02 03:04:05"), "[2024-01-02 03:04:05] [ERROR] [SSH] failed");
    assert!(l.warn("SSH", "w").is_some());
    assert_eq!(LogLevel::Debug.name(), "DEBUG");
    assert_eq!(LogLevel::Info.name(), "INFO");
    assert_eq!(l.log_file_path().as_deref(), Some("/tmp/app.log"));
    l.set_min_level(LogLevel::Error);
    assert!(!l.should_log(&LogLevel::Warn));
}

#[test]
fn password_sent_once_on_prompt() {
    let cfg = bob();
    assert!(is_password_prompt("bob@example.com's Password: "));
    assert!(!is_password_prompt("Welcome"));
    assert_eq!(password_reply(&cfg, false, "bob@example.com's password:"), Some("secret\r\n".to_string()));
    assert_eq!(password_reply(&cfg, false, "PASSWORD?"), Some("secret\r\n".to_string()));
    assert_eq!(password_reply(&cfg, true, "password:"), None);
    assert_eq!(password_reply(&cfg, false, "login:"), None);
    let mut key = bob();
    key.auth_type = AuthType::PublicKey;
    assert_eq!(password_reply(&key, false, "password:"), None);
    let mut none = bob();
    none.password = None;
    assert_eq!(password_reply(&none, false, "password:"), None);
}

#[test]
fn ssh_failures_are_classified() {
    assert_eq!(classify_ssh_output(b"bob@h: Permission denied (password)."), Some(FailureKind::Auth));
    assert_eq!(
        classify_ssh_output(b"Unable to negotiate with 1.2.3.4 port 22: no matching cipher"),
        Some(FailureKind::Handshake)
    );
    assert_eq!(classify_ssh_output(b"kex_exchange_identification: read: reset"), Some(FailureKind::Handshake));
    assert_eq!(classify_ssh_output(b"ssh: Could not resolve hostname nowhere"), Some(FailureKind::Transport));
    assert_eq!(classify_ssh_output(b"connect to host h port 22: Connection refused"), Some(FailureKind::Transport));
    assert_eq!(classify_ssh_output(b"Connection timed out"), Some(FailureKind::Transport));
    assert_eq!(classify_ssh_output(b"No route to host"), Some(FailureKind::Transport));
    assert_eq!(classify_ssh_output(b"bob@h's password: "), None);
    assert_eq!(connect_error(FailureKind::Auth, "x".to_string()), ConnectError::Auth("x".to_string()));
    assert_eq!(connect_error(FailureKind::Handshake, "y".to_string()), ConnectError::Handshake("y".to_string()));
    assert_eq!(connect_error(FailureKind::Transport, "z".to_string()), ConnectError::Transport("z".to_string()));
}

#[test]
fn ssh_arguments_for_each_login() {
    let mut c = bob();
    c.port = 2222;
    assert_eq!(
        c.ssh_args(),
        vec![
            "-o", "StrictHostKeyChecking=no", "-o", "UserKnownHostsFile=/dev/null", "-o", "ConnectTimeout=30",
            "-o", "PreferredAuthentications=password", "-o", "PubkeyAuthentication=no", "-p", "2222",
            "bob@example.com",
        ]
    );
    c.auth_type = AuthType::PublicKey;
    c.key_file = Some("/k".to_string());
    c.port = 7;
    let args = c.ssh_args();
    assert_eq!(&args[6..], &["-i", "/k", "-p", "7", "bob@example.com"]);
    c.port = 65535;
    assert_eq!(c.ssh_args()[9], "65535");
}
