use dmux::command::parse_raw_command;
use dmux::compat::CompatState;
use dmux::dispatch::{handle_request, keys_to_bytes, resume};
use dmux::effects::{Effect, Event, Pending, Step};
use dmux::proto::{Request, Response, SplitOrientation};
use dmux::state::ServerState;

fn run(state: &mut ServerState, compat: &mut CompatState, request: Request) -> Response {
    assert!(state.fits());
    let mut step = handle_request(state, compat, request);
    loop {
        match step {
            Step::Reply(r) => return r,
            Step::Perform(effect, pending) => {
                let event = match effect {
                    Effect::ReadOutput(_) => Event::Output(None),
                    Effect::SnapshotOutputs => Event::Outputs(Vec::new()),
                    _ => Event::Done,
                };
                assert!(state.fits());
                step = resume(state, compat, pending, event);
            }
        }
    }
}

fn raw(state: &mut ServerState, compat: &mut CompatState, command: &str) -> Response {
    run(state, compat, Request::ExecuteRaw { command: command.to_string() })
}

#[test]
fn ping_answers_pong() {
    let mut s = ServerState::new();
    let mut c = CompatState::new();
    assert!(matches!(run(&mut s, &mut c, Request::Ping), Response::Pong));
}

#[test]
fn created_session_is_found_and_killed() {
    let mut s = ServerState::new();
    let mut c = CompatState::new();
    match run(&mut s, &mut c, Request::CreateSession { name: "work".to_string() }) {
        Response::SessionCreated { name, .. } => assert_eq!(name, "work"),
        other => panic!("unexpected {other:?}"),
    }
    assert!(s.has_session("work"));
    match run(&mut s, &mut c, Request::HasSession { name: "work".to_string() }) {
        Response::SessionCheck { exists, .. } => assert!(exists),
        other => panic!("unexpected {other:?}"),
    }
    match run(&mut s, &mut c, Request::KillSession { name: "work".to_string() }) {
        Response::SessionKilled { name, .. } => assert_eq!(name, "work"),
        other => panic!("unexpected {other:?}"),
    }
    assert!(!s.has_session("work"));
}

#[test]
fn duplicate_session_is_refused() {
    let mut s = ServerState::new();
    let mut c = CompatState::new();
    run(&mut s, &mut c, Request::CreateSession { name: "a".to_string() });
    assert!(matches!(
        run(&mut s, &mut c, Request::CreateSession { name: "a".to_string() }),
        Response::Error { .. }
    ));
}

#[test]
fn split_window_adds_a_pane() {
    let mut s = ServerState::new();
    let mut c = CompatState::new();
    run(&mut s, &mut c, Request::CreateSession { name: "w".to_string() });
    let before = s.pane_ids().len();
    match run(
        &mut s,
        &mut c,
        Request::SplitWindow {
            session: Some("w".to_string()),
            window: None,
            title: None,
            orientation: SplitOrientation::Vertical,
        },
    ) {
        Response::PaneCreated { session, .. } => assert_eq!(session, "w"),
        other => panic!("unexpected {other:?}"),
    }
    assert_eq!(s.pane_ids().len(), before + 1);
}

#[test]
fn kill_pane_removes_it() {
    let mut s = ServerState::new();
    let mut c = CompatState::new();
    run(&mut s, &mut c, Request::CreateSession { name: "w".to_string() });
    let created = match raw(&mut s, &mut c, "split-window -t w:") {
        Response::PaneCreated { pane_id, .. } => pane_id,
        other => panic!("unexpected {other:?}"),
    };
    assert!(s.pane_ids().contains(&created));
    match run(
        &mut s,
        &mut c,
        Request::KillPane { session: Some("w".to_string()), window: None, pane: Some(created.to_string()) },
    ) {
        Response::PaneKilled { pane_id, .. } => assert_eq!(pane_id, created),
        other => panic!("unexpected {other:?}"),
    }
    assert!(!s.pane_ids().contains(&created));
}

#[test]
fn options_read_back() {
    let mut s = ServerState::new();
    let mut c = CompatState::new();
    run(&mut s, &mut c, Request::SetOption { name: "prefix".to_string(), value: "C-a".to_string() });
    match run(&mut s, &mut c, Request::ShowOptions { name: Some("prefix".to_string()) }) {
        Response::Options(v) => {
            assert_eq!(v.len(), 1);
            assert_eq!(v[0].name, "prefix");
            assert_eq!(v[0].value, "C-a");
        }
        other => panic!("unexpected {other:?}"),
    }
}

#[test]
fn messages_are_logged() {
    let mut s = ServerState::new();
    let mut c = CompatState::new();
    raw(&mut s, &mut c, "display-message hello world");
    match run(&mut s, &mut c, Request::ShowMessages) {
        Response::Messages(v) => assert_eq!(v.last().map(|m| m.as_str()), Some("hello world")),
        other => panic!("unexpected {other:?}"),
    }
}

#[test]
fn raw_commands_parse() {
    assert!(matches!(parse_raw_command("new-session -s x"), Ok(Request::CreateSession { name }) if name == "x"));
    assert!(matches!(parse_raw_command("list-sessions"), Ok(Request::ListSessions)));
    assert!(matches!(parse_raw_command("kill-server"), Ok(Request::KillServer)));
    assert!(parse_raw_command("").is_err());
}

#[test]
fn raw_command_unknown_is_an_error() {
    let mut s = ServerState::new();
    let mut c = CompatState::new();
    assert!(matches!(raw(&mut s, &mut c, "no-such-command-at-all"), Response::Error { .. }));
}

#[test]
fn keys_become_bytes() {
    assert_eq!(keys_to_bytes(&["ls".to_string(), "Enter".to_string()], false), b"ls\n".to_vec());
    assert_eq!(keys_to_bytes(&["a".to_string(), "b".to_string()], false), b"a b".to_vec());
    assert_eq!(keys_to_bytes(&["ab".to_string()], true), b"ab".to_vec());
    assert_eq!(keys_to_bytes(&["C-c".to_string()], false), vec![3u8]);
}

#[test]
fn rename_session_moves_name() {
    let mut s = ServerState::new();
    let mut c = CompatState::new();
    run(&mut s, &mut c, Request::CreateSession { name: "old".to_string() });
    run(&mut s, &mut c, Request::RenameSession { name: "old".to_string(), new_name: "new".to_string() });
    assert!(s.has_session("new"));
    assert!(!s.has_session("old"));
}

#[test]
fn list_sessions_counts_windows_and_panes() {
    let mut s = ServerState::new();
    let mut c = CompatState::new();
    run(&mut s, &mut c, Request::CreateSession { name: "one".to_string() });
    run(&mut s, &mut c, Request::CreateWindow { session: Some("one".to_string()), name: None });
    match run(&mut s, &mut c, Request::ListSessions) {
        Response::Sessions(v) => {
            assert_eq!(v.len(), 1);
            assert_eq!(v[0].name, "one");
            assert_eq!(v[0].windows, 2);
            assert_eq!(v[0].panes, 2);
        }
        other => panic!("unexpected {other:?}"),
    }
}

#[test]
fn capture_pane_returns_recorded_output() {
    let mut s = ServerState::new();
    let mut c = CompatState::new();
    run(&mut s, &mut c, Request::CreateSession { name: "cap".to_string() });
    let id = s.pane_ids()[0];
    assert!(s.set_pane_output(id, "one\ntwo\nthree".to_string()));
    let step = handle_request(
        &mut s,
        &mut c,
        Request::CapturePane { session: Some("cap".to_string()), window: None, pane: None, lines: Some(2) },
    );
    let resp = match step {
        Step::Perform(Effect::SnapshotOutputs, pending) => {
            match resume(&mut s, &mut c, pending, Event::Outputs(Vec::new())) {
                Step::Reply(r) => r,
                _ => panic!("expected a reply"),
            }
        }
        Step::Reply(r) => r,
        _ => panic!("unexpected step"),
    };
    match resp {
        Response::PaneCaptured { pane_id, lines } => {
            assert_eq!(pane_id, id);
            assert_eq!(lines, vec!["two".to_string(), "three".to_string()]);
        }
        other => panic!("unexpected {other:?}"),
    }
}

#[test]
fn pending_reply_passes_through() {
    let mut s = ServerState::new();
    let mut c = CompatState::new();
    match resume(&mut s, &mut c, Pending::Reply(Response::Pong), Event::Done) {
        Step::Reply(Response::Pong) => {}
        _ => panic!("expected pong"),
    }
    match resume(&mut s, &mut c, Pending::ReplyUnlessFailed(Response::Pong), Event::Failed("boom".to_string())) {
        Step::Reply(Response::Error { message }) => assert_eq!(message, "boom"),
        _ => panic!("expected the failure"),
    }
}

#[test]
fn message_log_keeps_the_last_two_hundred() {
    let mut s = ServerState::new();
    for i in 0..205 {
        s.display_message(format!("m{i}"));
    }
    let log = s.show_messages();
    assert_eq!(log.len(), 200);
    assert_eq!(log[0], "m5");
    assert_eq!(log[199], "m204");
}

#[test]
fn toggling_floating_twice_restores_the_pane() {
    let mut s = ServerState::new();
    let mut c = CompatState::new();
    run(&mut s, &mut c, Request::CreateSession { name: "f".to_string() });
    let toggle = |s: &mut ServerState, c: &mut CompatState| match run(
        s,
        c,
        Request::ToggleFloating { session: Some("f".to_string()), window: None, pane: None },
    ) {
        Response::PaneFloated { floating, .. } => floating,
        other => panic!("unexpected {other:?}"),
    };
    assert!(toggle(&mut s, &mut c));
    assert!(!toggle(&mut s, &mut c));
}

#[test]
fn session_names_stay_unique_after_rename() {
    let mut s = ServerState::new();
    let mut c = CompatState::new();
    run(&mut s, &mut c, Request::CreateSession { name: "a".to_string() });
    run(&mut s, &mut c, Request::CreateSession { name: "b".to_string() });
    assert!(matches!(
        run(&mut s, &mut c, Request::RenameSession { name: "a".to_string(), new_name: "b".to_string() }),
        Response::Error { .. }
    ));
    assert!(s.has_session("a"));
    assert!(s.has_session("b"));
}

#[test]
fn full_state_refuses_only_what_needs_room() {
    let mut s = ServerState::new();
    let mut c = CompatState::new();
    run(&mut s, &mut c, Request::CreateSession { name: "a".to_string() });
    s.next_pane_id = u64::MAX;
    assert!(!s.fits());
    match handle_request(&mut s, &mut c, Request::CreateSession { name: "b".to_string() }) {
        Step::Reply(Response::Error { message }) => assert_eq!(message, "server state is too large for this command"),
        other => panic!("unexpected {other:?}"),
    }
    assert!(!s.has_session("b"));
    assert!(matches!(handle_request(&mut s, &mut c, Request::Ping), Step::Reply(Response::Pong)));
    match handle_request(&mut s, &mut c, Request::ListSessions) {
        Step::Reply(Response::Sessions(v)) => assert_eq!(v.len(), 1),
        other => panic!("unexpected {other:?}"),
    }
    match handle_request(&mut s, &mut c, Request::SetOption { name: "k".to_string(), value: "v".to_string() }) {
        Step::Reply(Response::OptionSet { name, value }) => assert_eq!((name.as_str(), value.as_str()), ("k", "v")),
        other => panic!("unexpected {other:?}"),
    }
    match handle_request(&mut s, &mut c, Request::ExecuteRaw { command: "bind-key x kill-pane".to_string() }) {
        Step::Reply(Response::CommandAccepted { command }) => assert_eq!(command, "bind-key x"),
        other => panic!("unexpected {other:?}"),
    }
}

#[test]
fn previous_window_undoes_next() {
    let mut s = ServerState::new();
    let mut c = CompatState::new();
    run(&mut s, &mut c, Request::CreateSession { name: "w".to_string() });
    run(&mut s, &mut c, Request::CreateWindow { session: Some("w".to_string()), name: None });
    run(&mut s, &mut c, Request::CreateWindow { session: Some("w".to_string()), name: None });
    let start = s.sessions[0].active_window_id;
    let next = match run(&mut s, &mut c, Request::NextWindow { session: Some("w".to_string()) }) {
        Response::WindowSelected { id, .. } => id,
        other => panic!("unexpected {other:?}"),
    };
    assert_ne!(next, start);
    match run(&mut s, &mut c, Request::PreviousWindow { session: Some("w".to_string()) }) {
        Response::WindowSelected { id, .. } => assert_eq!(id, start),
        other => panic!("unexpected {other:?}"),
    }
    match run(&mut s, &mut c, Request::LastWindow { session: Some("w".to_string()) }) {
        Response::WindowSelected { id, .. } => assert_eq!(id, next),
        other => panic!("unexpected {other:?}"),
    }
    match run(&mut s, &mut c, Request::LastWindow { session: Some("w".to_string()) }) {
        Response::WindowSelected { id, .. } => assert_eq!(id, start),
        other => panic!("unexpected {other:?}"),
    }
}

#[test]
fn last_pane_twice_returns() {
    let mut s = ServerState::new();
    let mut c = CompatState::new();
    run(&mut s, &mut c, Request::CreateSession { name: "w".to_string() });
    let first = s.sessions[0].windows[0].active_pane_id;
    let second = match raw(&mut s, &mut c, "split-window -t w:") {
        Response::PaneCreated { pane_id, .. } => pane_id,
        other => panic!("unexpected {other:?}"),
    };
    match run(&mut s, &mut c, Request::LastPane { session: Some("w".to_string()), window: None }) {
        Response::PaneSelected { pane_id, .. } => assert_eq!(pane_id, first),
        other => panic!("unexpected {other:?}"),
    }
    match run(&mut s, &mut c, Request::LastPane { session: Some("w".to_string()), window: None }) {
        Response::PaneSelected { pane_id, .. } => assert_eq!(pane_id, second),
        other => panic!("unexpected {other:?}"),
    }
}

#[test]
fn rotating_up_then_down_restores_the_tree() {
    let mut s = ServerState::new();
    let mut c = CompatState::new();
    run(&mut s, &mut c, Request::CreateSession { name: "w".to_string() });
    raw(&mut s, &mut c, "split-window -t w:");
    raw(&mut s, &mut c, "split-window -t w:");
    let before = format!("{:?}", s.sessions[0].windows[0].layout_tree);
    raw(&mut s, &mut c, "rotate-window -t w: -U");
    let rotated = format!("{:?}", s.sessions[0].windows[0].layout_tree);
    assert_ne!(before, rotated);
    raw(&mut s, &mut c, "rotate-window -t w:");
    assert_eq!(format!("{:?}", s.sessions[0].windows[0].layout_tree), before);
}
