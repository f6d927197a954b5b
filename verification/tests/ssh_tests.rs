use cmux_win::ssh::{AuthRequest, ConnectOutcome, PtyOutcome, SshAuth, SshConfig, SshManager, SshSession};

fn config(auth: SshAuth) -> SshConfig {
    SshConfig { host: "example.com".to_string(), port: 22, username: "me".to_string(), auth_method: auth }
}

#[test]
fn connect_outcomes() {
    let mut s = SshSession::new("s".to_string(), config(SshAuth::Password("pw".to_string()))).unwrap();
    assert!(!s.is_connected());
    assert_eq!(
        s.connect(ConnectOutcome::Unreachable("refused".to_string())),
        Err("SSH connect failed: refused".to_string())
    );
    assert_eq!(s.connect(ConnectOutcome::Rejected), Err("Password authentication failed".to_string()));
    assert_eq!(s.connect(ConnectOutcome::AuthError("eof".to_string())), Err("Auth failed: eof".to_string()));
    assert!(!s.is_connected());
    assert_eq!(s.connect(ConnectOutcome::Accepted), Ok(()));
    assert!(s.is_connected());
}

#[test]
fn key_and_agent_auth() {
    let mut k = SshSession::new(
        "k".to_string(),
        config(SshAuth::Key { path: "/id".to_string(), passphrase: None }),
    ).unwrap();
    match k.auth_request() {
        Some(AuthRequest::Key { username, path, passphrase }) => {
            assert_eq!((username.as_str(), path.as_str(), passphrase), ("me", "/id", None));
        },
        _ => panic!("expected a key request"),
    }
    assert_eq!(
        k.connect(ConnectOutcome::KeyUnreadable("bad key".to_string())),
        Err("Failed to load key: bad key".to_string())
    );
    assert_eq!(k.connect(ConnectOutcome::Rejected), Err("Key authentication failed".to_string()));
    let mut a = SshSession::new("a".to_string(), config(SshAuth::Agent)).unwrap();
    assert!(a.auth_request().is_none());
    assert_eq!(a.connect(ConnectOutcome::Accepted), Err("SSH agent auth not yet implemented".to_string()));
    assert!(!a.is_connected());
}

#[test]
fn pty_write_resize_need_a_channel() {
    let mut s = SshSession::new("s".to_string(), config(SshAuth::Password("pw".to_string()))).unwrap();
    assert_eq!(s.pty_request(80, 24).err(), Some("Not connected".to_string()));
    assert_eq!(s.open_pty(PtyOutcome::Ready), Err("Not connected".to_string()));
    assert_eq!(s.write(Ok(())), Err("No channel open".to_string()));
    assert_eq!(s.resize(Ok(())), Err("No channel open".to_string()));
    s.connect(ConnectOutcome::Accepted).unwrap();
    let req = s.pty_request(120, 40).unwrap();
    assert_eq!((req.term.as_str(), req.cols, req.rows), ("xterm-256color", 120, 40));
    assert_eq!(
        s.open_pty(PtyOutcome::PtyFailed("denied".to_string())),
        Err("PTY request failed: denied".to_string())
    );
    assert_eq!(
        s.open_pty(PtyOutcome::ChannelFailed("x".to_string())),
        Err("Failed to open channel: x".to_string())
    );
    assert_eq!(s.open_pty(PtyOutcome::ShellFailed("y".to_string())), Err("Shell request failed: y".to_string()));
    assert!(!s.has_channel());
    assert_eq!(s.open_pty(PtyOutcome::Ready), Ok(()));
    assert_eq!(s.write(Ok(())), Ok(()));
    assert_eq!(s.write(Err("closed".to_string())), Err("Write failed: closed".to_string()));
    assert_eq!(s.resize(Err("no".to_string())), Err("Resize failed: no".to_string()));
    s.disconnect();
    assert!(!s.is_connected());
    assert!(!s.has_channel());
}

#[test]
fn manager_keeps_connected_sessions() {
    let mut m = SshManager::new();
    assert_eq!(
        m.connect("a".to_string(), config(SshAuth::Agent), ConnectOutcome::Accepted),
        Err("SSH agent auth not yet implemented".to_string())
    );
    assert!(m.list().is_empty());
    m.connect("a".to_string(), config(SshAuth::Password("p".to_string())), ConnectOutcome::Accepted).unwrap();
    m.connect("b".to_string(), config(SshAuth::Password("p".to_string())), ConnectOutcome::Accepted).unwrap();
    assert_eq!(m.list(), vec!["a".to_string(), "b".to_string()]);
    assert!(m.get("a").unwrap().is_connected());
    assert!(m.get("zz").is_none());
    m.get_mut("b").unwrap().open_pty(PtyOutcome::Ready).unwrap();
    assert!(m.get("b").unwrap().has_channel());
    m.disconnect("a");
    assert_eq!(m.list(), vec!["b".to_string()]);
    m.disconnect("zz");
    assert_eq!(m.list().len(), 1);
}

#[test]
fn manager_session_keeps_its_config() {
    let mut m = SshManager::new();
    let cfg = SshConfig { host: "h.example".to_string(), port: 2222, username: "u".to_string(), auth_method: SshAuth::Password("p".to_string()) };
    m.connect("s".to_string(), cfg, ConnectOutcome::Accepted).unwrap();
    let kept = m.get("s").unwrap().config();
    assert_eq!((kept.host.as_str(), kept.port, kept.username.as_str()), ("h.example", 2222, "u"));
    let other = SshConfig { host: "o.example".to_string(), port: 22, username: "v".to_string(), auth_method: SshAuth::Password("q".to_string()) };
    m.connect("s".to_string(), other, ConnectOutcome::Accepted).unwrap();
    assert_eq!(m.get("s").unwrap().config().host, "o.example");
    assert_eq!(m.list(), vec!["s".to_string()]);
}
