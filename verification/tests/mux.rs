use tuxmux::mux::{
    Mux,
    create_or_attach_session, kill_sessions, program, session_listed, to_result, MuxError, MuxKind,
    MuxOp, Tmux, Zellij,
};

fn strs(items: &[&str]) -> Vec<String> {
    items.iter().map(|s| s.to_string()).collect()
}

fn tmux() -> Tmux {
    Tmux::new(None)
}

#[test]
fn tmux_socket_defaults() {
    assert_eq!(Tmux::new(None).socket_name, "default");
    assert_eq!(Tmux::new(Some("work".to_string())).socket_name, "work");
}

#[test]
fn tmux_is_inside_where_the_variable_is_set() {
    assert!(Tmux::is_inside(Some("/tmp/tmux-1000/default,1,0")));
    assert!(Tmux::is_inside(Some("")));
    assert!(!Tmux::is_inside(None));
}

#[test]
fn tmux_queries() {
    assert_eq!(tmux().list_sessions(), strs(&["-L", "default", "list-sessions", "-F", "#S"]));
    assert_eq!(tmux().session_exists("a"), strs(&["-L", "default", "has-session", "-t", "a"]));
    assert_eq!(tmux().session_name(), strs(&["-L", "default", "display-message", "-p", "#S"]));
}

#[test]
fn tmux_create_session() {
    assert_eq!(
        Tmux::new(Some("s".to_string())).create_session("alpha", "/tmp/ws/alpha", None),
        strs(&["-L", "s", "new-session", "-d", "-s", "alpha", "-c", "/tmp/ws/alpha"])
    );
    assert_eq!(
        tmux().create_session("proj", "/tmp/ws/proj/main", Some("main")),
        strs(&[
            "-L", "default", "new-session", "-d", "-s", "proj", "-c", "/tmp/ws/proj/main", "-n",
            "main"
        ])
    );
}

#[test]
fn tmux_attach_switches_from_inside() {
    assert_eq!(
        tmux().attach_session("a", false),
        strs(&["-L", "default", "attach-session", "-t", "a"])
    );
    assert_eq!(
        tmux().attach_session("a", true),
        strs(&["-L", "default", "switch-client", "-t", "a"])
    );
}

#[test]
fn tmux_other_operations() {
    assert_eq!(tmux().kill_session("a"), strs(&["-L", "default", "kill-session", "-t", "a"]));
    assert_eq!(tmux().create_window("w", None), strs(&["-L", "default", "new-window", "-n", "w"]));
    assert_eq!(
        tmux().create_window("w", Some("/p")),
        strs(&["-L", "default", "new-window", "-n", "w", "-c", "/p"])
    );
    assert_eq!(
        tmux().send_command("s:w", "make test"),
        strs(&["-L", "default", "send-keys", "-t", "s:w", "make test", "Enter"])
    );
}

#[test]
fn tmux_arguments_for_operations() {
    let t = tmux();
    let op = MuxOp::CreateSession {
        name: "n".to_string(),
        cwd: "/c".to_string(),
        window: Some("w".to_string()),
    };
    assert_eq!(t.arguments(&op, false), t.create_session("n", "/c", Some("w")));
    let op = MuxOp::AttachSession { name: "n".to_string() };
    assert_eq!(t.arguments(&op, true), t.attach_session("n", true));
    let op = MuxOp::KillSession { name: "n".to_string() };
    assert_eq!(t.arguments(&op, true), t.kill_session("n"));
    let op = MuxOp::CreateWindow { name: "w".to_string(), path: Some("/p".to_string()) };
    assert_eq!(t.arguments(&op, true), t.create_window("w", Some("/p")));
    let op = MuxOp::SendCommand { target: "s:w".to_string(), command: "ls".to_string() };
    assert_eq!(t.arguments(&op, true), t.send_command("s:w", "ls"));
}

#[test]
fn tmux_sessions_are_the_lines_printed() {
    assert_eq!(Tmux::parse_sessions("one\ntwo\n"), strs(&["one", "two"]));
    assert_eq!(Tmux::parse_sessions("one"), strs(&["one"]));
    assert_eq!(Tmux::parse_sessions(""), Vec::<String>::new());
    assert_eq!(Tmux::parse_sessions(" a b \n"), strs(&[" a b "]));
}

#[test]
fn tmux_current_session_name() {
    assert_eq!(Tmux::parse_session_name(true, "main\n"), Some("main".to_string()));
    assert_eq!(Tmux::parse_session_name(true, ""), None);
    assert_eq!(Tmux::parse_session_name(false, "main\n"), None);
}

#[test]
fn zellij_sessions_lose_the_mark_of_the_current_one() {
    assert_eq!(
        Zellij::parse_sessions(true, "one\ntwo (current)\nthree\n"),
        strs(&["one", "two", "three"])
    );
    assert_eq!(Zellij::parse_sessions(true, "x (current) (current)\n"), strs(&["x"]));
    assert_eq!(Zellij::parse_sessions(true, "(current)\n"), strs(&["(current)"]));
    assert_eq!(Zellij::parse_sessions(true, " (current)\n"), strs(&[""]));
    assert_eq!(Zellij::parse_sessions(true, ""), Vec::<String>::new());
    assert_eq!(Zellij::parse_sessions(false, "one\n"), Vec::<String>::new());
}

#[test]
fn zellij_marks_are_stripped_as_the_standard_library_does() {
    for line in ["a (current)", "a", " (current) (current)", "(current) ", "a (current)b"] {
        let expected = line.trim_end_matches(" (current)").to_string();
        let text = format!("{}\n", line);
        assert_eq!(Zellij::parse_sessions(true, &text), vec![expected]);
    }
}

#[test]
fn zellij_session_exists_where_it_is_listed() {
    let z = Zellij;
    assert!(z.session_exists(&strs(&["a", "b"]), "b"));
    assert!(!z.session_exists(&strs(&["a", "b"]), "c"));
    assert!(!z.session_exists(&vec![], "a"));
}

#[test]
fn zellij_operations() {
    let z = Zellij;
    assert_eq!(z.list_sessions(), strs(&["list-sessions"]));
    assert_eq!(
        z.create_session("n", "/c"),
        strs(&[
            "attach",
            "n",
            "--create",
            "options",
            "--attach-to-session",
            "false",
            "--default-cwd",
            "/c"
        ])
    );
    assert_eq!(z.attach_session("n"), strs(&["attach", "n"]));
    assert_eq!(z.kill_session("n"), strs(&["kill-session", "n"]));
    assert_eq!(
        z.create_window("w", Some("/p")),
        strs(&["action", "new-tab", "--name", "w", "--cwd", "/p"])
    );
    assert_eq!(z.create_window("w", None), strs(&["action", "new-tab", "--name", "w"]));
}

#[test]
fn zellij_writes_a_command_byte_by_byte() {
    let z = Zellij;
    assert_eq!(
        z.send_command("s", "ls"),
        strs(&["--session", "s", "action", "write", "108", "115", "13"])
    );
    assert_eq!(z.send_command("s", ""), strs(&["--session", "s", "action", "write", "13"]));
    assert_eq!(
        z.send_command("s", "\u{e4}\u{0}"),
        strs(&["--session", "s", "action", "write", "195", "164", "0", "13"])
    );
    let op = MuxOp::SendCommand { target: "s".to_string(), command: "ls".to_string() };
    assert_eq!(z.arguments(&op), z.send_command("s", "ls"));
    let op = MuxOp::CreateSession {
        name: "n".to_string(),
        cwd: "/c".to_string(),
        window: Some("ignored".to_string()),
    };
    assert_eq!(z.arguments(&op), z.create_session("n", "/c"));
}

#[test]
fn create_or_attach_creates_only_what_is_missing() {
    assert_eq!(
        create_or_attach_session(false, "n", "/p"),
        vec![
            MuxOp::CreateSession { name: "n".to_string(), cwd: "/p".to_string(), window: None },
            MuxOp::AttachSession { name: "n".to_string() },
        ]
    );
    assert_eq!(
        create_or_attach_session(true, "n", "/p"),
        vec![MuxOp::AttachSession { name: "n".to_string() }]
    );
}

#[test]
fn create_or_attach_leaves_the_session_in_place() {
    for before in [vec![], strs(&["n"]), strs(&["a", "b"])] {
        let exists = session_listed(&before, "n");
        let mut sessions = before.clone();
        for op in create_or_attach_session(exists, "n", "/p") {
            match op {
                MuxOp::CreateSession { name, .. } => {
                    if !sessions.contains(&name) {
                        sessions.push(name)
                    }
                }
                MuxOp::KillSession { name } => sessions.retain(|s| *s != name),
                _ => {}
            }
        }
        assert!(session_listed(&sessions, "n"));
    }
}

#[test]
fn kill_sessions_keeps_the_order() {
    assert_eq!(
        kill_sessions(&strs(&["b", "a"])),
        vec![
            MuxOp::KillSession { name: "b".to_string() },
            MuxOp::KillSession { name: "a".to_string() }
        ]
    );
    assert_eq!(kill_sessions(&vec![]), vec![]);
}

#[test]
fn a_failed_command_becomes_an_error() {
    assert_eq!(to_result(MuxKind::Tmux, strs(&["kill-session"]), true, String::new()), Ok(()));
    let e = to_result(
        MuxKind::Tmux,
        strs(&["-L", "default", "kill-session", "-t", "x"]),
        false,
        "can't find session: x".to_string(),
    )
    .unwrap_err();
    assert_eq!(
        e,
        MuxError {
            backend: MuxKind::Tmux,
            command: strs(&["-L", "default", "kill-session", "-t", "x"]),
            stderr: "can't find session: x".to_string(),
        }
    );
    assert_eq!(e.message(), "tmux -L default kill-session -t x: can't find session: x");
}

#[test]
fn programs_are_named_after_the_backend() {
    assert_eq!(program(MuxKind::Tmux), "tmux");
    assert_eq!(program(MuxKind::Zellij), "zellij");
    let e = MuxError { backend: MuxKind::Zellij, command: vec![], stderr: "no".to_string() };
    assert_eq!(e.message(), "zellij: no");
}

#[test]
fn the_multiplexer_dispatches_by_backend() {
    let t = Mux::new(MuxKind::Tmux, Some("s".to_string()), Some("x"));
    assert!(t.inside);
    assert_eq!(t.program(), "tmux");
    assert_eq!(t.list_arguments(), strs(&["-L", "s", "list-sessions", "-F", "#S"]));
    let op = MuxOp::AttachSession { name: "n".to_string() };
    assert_eq!(t.arguments(&op), strs(&["-L", "s", "switch-client", "-t", "n"]));
    assert_eq!(t.exists_arguments("n"), Some(strs(&["-L", "s", "has-session", "-t", "n"])));
    assert_eq!(t.name_arguments(), Some(strs(&["-L", "s", "display-message", "-p", "#S"])));
    assert_eq!(t.sessions(true, "a\nb\n"), strs(&["a", "b"]));
    assert_eq!(t.sessions(false, "a\nb\n"), Vec::<String>::new());

    let z = Mux::new(MuxKind::Zellij, None, Some("x"));
    assert!(!z.inside);
    assert_eq!(z.program(), "zellij");
    assert_eq!(z.list_arguments(), strs(&["list-sessions"]));
    assert_eq!(z.arguments(&op), strs(&["attach", "n"]));
    assert_eq!(z.exists_arguments("n"), None);
    assert_eq!(z.name_arguments(), None);
    assert_eq!(z.sessions(true, "a (current)\nb\n"), strs(&["a", "b"]));

    let outside = Mux::new(MuxKind::Tmux, None, None);
    assert!(!outside.inside);
    assert_eq!(outside.arguments(&op), strs(&["-L", "default", "attach-session", "-t", "n"]));
}
