use cmux_win::terminal::{launch_plan, TerminalManager};

#[test]
fn launch_plan_defaults() {
    let (sh, dir) = launch_plan(None, None, false);
    assert_eq!((sh.as_str(), dir.as_str()), ("bash", "/home"));
    let (sh, dir) = launch_plan(None, None, true);
    assert_eq!((sh.as_str(), dir.as_str()), ("powershell.exe", "C:\\Users"));
    let (sh, dir) = launch_plan(Some("zsh"), Some("/tmp"), true);
    assert_eq!((sh.as_str(), dir.as_str()), ("zsh", "/tmp"));
}

#[test]
fn create_and_close() {
    let mut m = TerminalManager::new();
    let (id, title, cwd) = m.create(None, Some("/work"), false, Ok(())).unwrap();
    assert_eq!(title, "bash");
    assert_eq!(cwd, "/work");
    assert_eq!(id.len(), 36);
    assert_eq!(m.get_ids(), vec![id.clone()]);
    let st = m.state(&id).unwrap();
    assert_eq!((st.buffer.cols, st.buffer.rows), (80, 24));
    assert_eq!(m.close(&id), Ok(()));
    assert!(m.get_ids().is_empty());
    assert_eq!(m.close(&id), Err(format!("Terminal {} not found", id)));
}

#[test]
fn failed_spawn_creates_nothing() {
    let mut m = TerminalManager::new();
    assert_eq!(m.create(None, None, false, Err("boom".to_string())), Err("Failed to create PTY: boom".to_string()));
    assert!(m.get_ids().is_empty());
}

#[test]
fn write_and_resize_outcomes() {
    let mut m = TerminalManager::new();
    let (id, _, _) = m.create(None, None, false, Ok(())).unwrap();
    assert_eq!(m.write(&id, Ok(())), Ok(()));
    assert_eq!(m.write(&id, Err("pipe".to_string())), Err("pipe".to_string()));
    assert_eq!(m.write("nope", Ok(())), Err("Terminal nope not found".to_string()));
    assert_eq!(m.resize(&id, 100, 30, Err("busy".to_string())), Err("busy".to_string()));
    assert_eq!(m.state(&id).unwrap().buffer.cols, 80);
    assert_eq!(m.resize(&id, 100, 30, Ok(())), Ok(()));
    assert_eq!(m.state(&id).unwrap().buffer.cols, 100);
    assert_eq!(m.state(&id).unwrap().buffer.rows, 30);
    assert_eq!(m.resize("nope", 1, 1, Ok(())), Err("Terminal nope not found".to_string()));
}

#[test]
fn drain_output_feeds_known_terminals() {
    let mut m = TerminalManager::new();
    let (a, _, _) = m.create(None, None, false, Ok(())).unwrap();
    let (b, _, _) = m.create(None, None, false, Ok(())).unwrap();
    let out = m.drain_output(vec![
        (a.clone(), b"hello".to_vec()),
        (b.clone(), Vec::new()),
        ("ghost".to_string(), b"x".to_vec()),
        (b.clone(), b"\x1b[2;3Hz".to_vec()),
    ]);
    assert_eq!(out, vec![(a.clone(), b"hello".to_vec()), (b.clone(), b"\x1b[2;3Hz".to_vec())]);
    assert_eq!(m.state(&a).unwrap().buffer.lines[0][4].char, "o");
    assert_eq!(m.state(&b).unwrap().buffer.lines[1][2].char, "z");
    assert_eq!(m.get_ids(), vec![a, b]);
}

#[test]
fn terminal_ids_are_v4_uuid_text() {
    let mut m = TerminalManager::new();
    let (id, _, _) = m.create(None, None, false, Ok(())).unwrap();
    let chars: Vec<char> = id.chars().collect();
    assert_eq!(chars.len(), 36);
    for (i, c) in chars.iter().enumerate() {
        if i == 8 || i == 13 || i == 18 || i == 23 {
            assert_eq!(*c, '-');
        } else {
            assert!(c.is_ascii_digit() || ('a'..='f').contains(c));
        }
    }
    assert_eq!(chars[14], '4');
    assert!(matches!(chars[19], '8' | '9' | 'a' | 'b'));
}
