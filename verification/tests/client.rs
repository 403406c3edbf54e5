use dmux::bars::{
    build_meta_lines, build_window_pane_bar, clock_text_exec, parse_prefix_key, parse_ui_config, status_commands,
    substitute_status,
};
use dmux::client::{FollowUp, UiAction, UiState};
use dmux::copy::{clip_to_chars, normalize_selection, render_copy_overlay_line, yank_selection, CopyModeState};
use dmux::display::{compact_visual_line_exec, normalize_for_display_exec, response_text_exec, strip_ansi_exec};
use dmux::frame::{compose_frame, DrawOp, StatusFill};
use dmux::proto::{PaneInfo, Request, Response, SessionInfo, SplitNodeInfo, SplitOrientation, WindowInfo};
use dmux::screen::{build_split_rects, distribute_slots, split_borders_exec, Border};
use dmux::terminal::{parse_color_name, parse_terminal_snapshot, render_terminal_styled, Color};
use dmux::ui::{
    active_pane_target_exec, key_event_to_literal, mouse_action_exec, next_pane_request_exec, prefix_action_exec,
    resize_command_exec, snapshot_from, Key, KeyInput, MouseKind, PrefixAction, UiSnapshot,
};

fn pane(session: &str, window: &str, id: u64, active: bool) -> PaneInfo {
    PaneInfo {
        session_id: 1,
        session_name: session.to_string(),
        window_id: 1,
        window_name: window.to_string(),
        pane_id: id,
        pane_title: format!("p{id}"),
        active,
        last_input: None,
        last_output: None,
        rows: 0,
        cols: 0,
        floating: false,
    }
}

fn window(session: &str, name: &str, active: bool) -> WindowInfo {
    WindowInfo {
        session_id: 1,
        session_name: session.to_string(),
        window_id: 1,
        window_name: name.to_string(),
        pane_count: 1,
        active,
        layout: SplitOrientation::Horizontal,
        layout_tree: None,
    }
}

fn snapshot() -> UiSnapshot {
    UiSnapshot {
        attached_session: Some("work".to_string()),
        sessions: vec![SessionInfo { id: 1, name: "work".to_string(), windows: 2, panes: 3 }],
        windows: vec![window("work", "1", false), window("work", "0", true)],
        panes: vec![pane("work", "0", 5, false), pane("work", "0", 2, true), pane("work", "0", 9, false)],
    }
}

fn key(c: char) -> KeyInput {
    KeyInput { code: Key::Char(c), ctrl: false, alt: false }
}

#[test]
fn strip_ansi_removes_sequences() {
    assert_eq!(strip_ansi_exec("\u{1b}[31mred\u{1b}[0m"), "red");
    assert_eq!(strip_ansi_exec("a\u{1b}]0;title\u{7}b"), "ab");
    assert_eq!(strip_ansi_exec("plain text"), "plain text");
}

#[test]
fn normalize_collapses_blank_runs() {
    assert_eq!(normalize_for_display_exec("a\r\n\n\n\nb  \n"), "a\n\nb");
    assert_eq!(compact_visual_line_exec("x   "), "x");
    let deep = format!("{}y", " ".repeat(30));
    assert_eq!(compact_visual_line_exec(&deep), "y");
}

#[test]
fn responses_print_as_lines() {
    assert_eq!(response_text_exec(&Response::Pong), Ok(vec!["pong".to_string()]));
    assert_eq!(
        response_text_exec(&Response::SessionCreated { id: 3, name: "w".to_string() }),
        Ok(vec!["created session id=3 name=w".to_string()])
    );
    assert_eq!(response_text_exec(&Response::Messages(vec![])), Ok(vec!["no messages".to_string()]));
    assert_eq!(response_text_exec(&Response::Error { message: "bad".to_string() }), Err("bad".to_string()));
}

#[test]
fn pane_listing_shows_last_output_lines() {
    let mut p = pane("s", "w", 4, true);
    p.last_output = Some("one\ntwo\nthree\n".to_string());
    let lines = response_text_exec(&Response::Panes(vec![p])).unwrap();
    assert_eq!(
        lines,
        vec!["session=s(1) window=w(1) pane=4 title=p4 active=true last_input= last_output=two | three".to_string()]
    );
}

#[test]
fn terminal_replays_plain_text() {
    let t = parse_terminal_snapshot("hello", 80);
    assert_eq!(t.lines.len(), 1);
    let text: String = t.lines[0].iter().map(|c| c.ch).collect();
    assert_eq!(text, "hello");
    assert_eq!(t.cursor_col, 5);
    assert_eq!(t.cursor_row, 0);
}

#[test]
fn terminal_follows_cursor_and_colours() {
    let t = parse_terminal_snapshot("ab\r\ncd\u{1b}[1;1HX\u{1b}[31mY", 80);
    assert_eq!(t.lines.len(), 2);
    let first: String = t.lines[0].iter().map(|c| c.ch).collect();
    assert_eq!(first, "XY");
    assert_eq!(t.lines[0][1].style.fg, Some(Color::DarkRed));
    let second: String = t.lines[1].iter().map(|c| c.ch).collect();
    assert_eq!(second, "cd");
    let hidden = parse_terminal_snapshot("\u{1b}[?25l", 80);
    assert!(!hidden.cursor_visible);
    let cleared = parse_terminal_snapshot("junk\u{1b}[2J", 80);
    assert_eq!(cleared.lines.len(), 1);
    assert!(cleared.lines[0].is_empty());
}

#[test]
fn empty_output_shows_starting_shell() {
    let r = render_terminal_styled("", 40, 10, 0);
    let text: String = r.lines[0].iter().map(|c| c.ch).collect();
    assert_eq!(text, "<starting shell...>");
    assert!(r.cursor.is_none());
}

#[test]
fn colour_names_parse() {
    assert_eq!(parse_color_name("Blue"), Some(Color::DarkBlue));
    assert_eq!(parse_color_name("brightred"), Some(Color::Red));
    assert_eq!(parse_color_name("gray"), Some(Color::DarkGrey));
    assert_eq!(parse_color_name("purple"), None);
}

#[test]
fn active_targets() {
    let s = snapshot();
    assert_eq!(
        active_pane_target_exec(&s),
        Some(("work".to_string(), "0".to_string(), "2".to_string()))
    );
}

#[test]
fn next_pane_cycles_by_id() {
    let s = snapshot();
    match next_pane_request_exec(&s) {
        Some(Request::SelectPane { pane, .. }) => assert_eq!(pane, "5"),
        other => panic!("unexpected {other:?}"),
    }
}

#[test]
fn prefix_keys_ask_the_server() {
    let s = snapshot();
    match prefix_action_exec(&s, Key::Char('c')) {
        PrefixAction::Send(Request::CreateWindow { session, .. }, ok) => {
            assert_eq!(session.as_deref(), Some("work"));
            assert_eq!(ok, "window created");
        }
        _ => panic!("expected a new window"),
    }
    match prefix_action_exec(&s, Key::Char('x')) {
        PrefixAction::Send(Request::KillPane { window, pane, .. }, _) => {
            assert_eq!(window.as_deref(), Some("0"));
            assert_eq!(pane.as_deref(), Some("2"));
        }
        _ => panic!("expected a kill"),
    }
    let mut lonely = snapshot();
    lonely.attached_session = None;
    match prefix_action_exec(&lonely, Key::Char('c')) {
        PrefixAction::Notice(n) => assert_eq!(n, "no attached session"),
        _ => panic!("expected a notice"),
    }
}

#[test]
fn keys_become_pane_input() {
    assert_eq!(key_event_to_literal(key('a')), Some("a".to_string()));
    assert_eq!(key_event_to_literal(KeyInput { code: Key::Char('c'), ctrl: true, alt: false }), Some("\u{3}".to_string()));
    assert_eq!(key_event_to_literal(KeyInput { code: Key::Up, ctrl: false, alt: true }), Some("\u{1b}\u{1b}[A".to_string()));
    assert_eq!(key_event_to_literal(KeyInput { code: Key::Char('1'), ctrl: true, alt: false }), None);
}

#[test]
fn mouse_scrolls_and_selects() {
    let s = snapshot();
    let (o, m, q) = mouse_action_exec(&s, MouseKind::ScrollUp, 0, 40, 0, false);
    assert_eq!((o, m), (3, true));
    assert!(q.is_none());
    let (o, m, _) = mouse_action_exec(&s, MouseKind::ScrollDown, 0, 40, 3, true);
    assert_eq!((o, m), (0, false));
    match mouse_action_exec(&s, MouseKind::LeftDown, 1, 40, 0, false).2 {
        Some(Request::SelectPane { pane, .. }) => assert_eq!(pane, "5"),
        other => panic!("unexpected {other:?}"),
    }
}

#[test]
fn resize_command_names_window() {
    let s = snapshot();
    assert_eq!(resize_command_exec(&s, 120, 40), Some("resize-window -t work:0 -x 120 -y 40".to_string()));
}

#[test]
fn bars_show_windows_and_panes() {
    let s = snapshot();
    assert_eq!(build_window_pane_bar(&s), "windows: [0] 1 | panes: <2> 5 9");
    let meta = build_meta_lines(&s);
    assert_eq!(meta[0], "--- metadata ---");
    assert_eq!(meta[2], "  id=1 name=work windows=2 panes=3");
}

#[test]
fn status_templates_fill_in() {
    let out = substitute_status("[#S:#W.#P] #H #T #(date) #X#", "s", "w", "p", "host", "12:34", &vec![Some("today\n\n".to_string())]);
    assert_eq!(out, "[s:w.p] host 12:34 today #X#");
    assert_eq!(status_commands("a #(date) #() #(id)"), vec!["date".to_string(), "id".to_string()]);
    assert_eq!(clock_text_exec(3 * 3600 + 7 * 60 + 5), "03:07");
}

#[test]
fn prefix_setting_parses() {
    assert_eq!(parse_prefix_key("C-a"), Some('a'));
    assert_eq!(parse_prefix_key(" ctrl-X "), Some('x'));
    assert_eq!(parse_prefix_key("b"), Some('b'));
    assert_eq!(parse_prefix_key("   "), None);
}

#[test]
fn configuration_parses() {
    let cfg = parse_ui_config("# c\nset status-left \"[#S]\"\nset-option status-bg blue\nprefix C-a\nbogus\n");
    assert_eq!(cfg.status_left.as_deref(), Some("[#S]"));
    assert_eq!(cfg.status_bg.as_deref(), Some("blue"));
    assert_eq!(cfg.prefix_key.as_deref(), Some("C-a"));
    assert_eq!(cfg.status_right, None);
}

#[test]
fn copy_mode_selects_and_yanks() {
    assert_eq!(normalize_selection((2, 1), (1, 5)), ((1, 5), (2, 1)));
    let copy = CopyModeState { cursor_row: 0, cursor_col: 4, anchor: Some((0, 0)) };
    assert_eq!(render_copy_overlay_line("a b c", 0, &copy), "a·b·█");
    let lines = vec!["hello".to_string(), "world".to_string()];
    let across = CopyModeState { cursor_row: 1, cursor_col: 2, anchor: Some((0, 3)) };
    assert_eq!(yank_selection(&lines, &across), Some("lo\nwor".to_string()));
    assert_eq!(yank_selection(&lines, &CopyModeState { cursor_row: 0, cursor_col: 0, anchor: None }), None);
    assert_eq!(clip_to_chars("abcdef", 3), "abc");
}

#[test]
fn slots_share_the_axis() {
    assert_eq!(distribute_slots(&vec![0, 0, 0], 10, 1), vec![4, 3, 3]);
    assert_eq!(distribute_slots(&vec![4, 0], 10, 1), vec![4, 6]);
    assert_eq!(distribute_slots(&vec![], 7, 1), vec![7]);
    assert_eq!(distribute_slots(&vec![30, 30], 20, 1), vec![10, 10]);
}

#[test]
fn split_tree_rectangles() {
    let tree = SplitNodeInfo::Split {
        orientation: SplitOrientation::Vertical,
        split_ratio: 500,
        first: Box::new(SplitNodeInfo::Leaf { pane_id: 1 }),
        second: Box::new(SplitNodeInfo::Leaf { pane_id: 2 }),
    };
    let rects = build_split_rects(&tree, 0, 1, 81, 20);
    assert_eq!(rects.len(), 2);
    assert_eq!((rects[0].pane_id, rects[0].x, rects[0].width), (1, 0, 40));
    assert_eq!((rects[1].pane_id, rects[1].x, rects[1].width), (2, 41, 40));
    assert_eq!(split_borders_exec(&tree, 0, 1, 81, 20), vec![Border::Column { col: 40, row: 1, height: 20 }]);
}

#[test]
fn ui_keys_drive_modes() {
    let s = snapshot();
    let lines = vec!["x".to_string()];
    let mut u = UiState::new();
    assert!(matches!(u.handle_key(&s, &lines, 'b', KeyInput { code: Key::Char('b'), ctrl: true, alt: false }), UiAction::Nothing));
    assert!(u.prefix);
    assert!(matches!(u.handle_key(&s, &lines, 'b', key('m')), UiAction::Nothing));
    assert!(u.show_meta);
    assert!(!u.prefix);
    match u.handle_key(&s, &lines, 'b', key('z')) {
        UiAction::Send(Request::SendKeys { keys, pane, .. }, FollowUp::FailOnError) => {
            assert_eq!(keys, vec!["z".to_string()]);
            assert_eq!(pane.as_deref(), Some("2"));
        }
        _ => panic!("expected keys for the pane"),
    }
    u.handle_key(&s, &lines, 'b', KeyInput { code: Key::Char('b'), ctrl: true, alt: false });
    assert!(matches!(u.handle_key(&s, &lines, 'b', key('q')), UiAction::Quit));
}

#[test]
fn ui_prompt_runs_a_command() {
    let s = snapshot();
    let lines: Vec<String> = Vec::new();
    let mut u = UiState::new();
    u.handle_key(&s, &lines, 'b', KeyInput { code: Key::Char('b'), ctrl: true, alt: false });
    u.handle_key(&s, &lines, 'b', key(':'));
    for c in "ls".chars() {
        u.handle_key(&s, &lines, 'b', key(c));
    }
    u.handle_key(&s, &lines, 'b', key('x'));
    u.handle_key(&s, &lines, 'b', KeyInput { code: Key::Backspace, ctrl: false, alt: false });
    match u.handle_key(&s, &lines, 'b', KeyInput { code: Key::Enter, ctrl: false, alt: false }) {
        UiAction::Send(Request::ExecuteRaw { command }, f) => {
            assert_eq!(command, "ls");
            assert!(u.handle_reply(f, Response::CommandAccepted { command: "ls".to_string() }).is_ok());
            assert_eq!(u.notice.as_deref(), Some("ok: ls"));
        }
        _ => panic!("expected the command"),
    }
}

#[test]
fn ui_reply_errors_end_the_client() {
    let mut u = UiState::new();
    assert_eq!(u.handle_reply(FollowUp::FailOnError, Response::Error { message: "gone".to_string() }), Err("gone".to_string()));
    assert!(u.handle_reply(FollowUp::Paste, Response::Pong).is_ok());
    assert_eq!(u.notice.as_deref(), Some("pasted yanked text"));
}

#[test]
fn snapshot_from_listings() {
    let clients = Response::Clients(vec![]);
    let s = snapshot_from(&clients, Response::Sessions(vec![]), Response::Windows(vec![]), Response::Panes(vec![])).unwrap();
    assert!(s.attached_session.is_none());
    assert!(snapshot_from(&clients, Response::Error { message: "x".to_string() }, Response::Windows(vec![]), Response::Panes(vec![])).is_err());
}

#[test]
fn frame_has_bars_and_panes() {
    let s = snapshot();
    let u = UiState::new();
    let cfg = parse_ui_config("");
    let fill = StatusFill { host: "h".to_string(), clock: "00:00".to_string(), left_outputs: vec![], right_outputs: vec![] };
    let f = compose_frame(&s, &u, &cfg, &fill, 80, 24);
    match &f.ops[0] {
        DrawOp::Bar { row, .. } => assert_eq!(*row, 0),
        _ => panic!("expected the top bar"),
    }
    let bars = f.ops.iter().filter(|o| matches!(o, DrawOp::Bar { .. })).count();
    assert!(bars >= 3);
    assert!(!f.content_lines.is_empty());
}

#[test]
fn meta_key_twice_restores_modes() {
    let s = snapshot();
    let lines: Vec<String> = Vec::new();
    let mut u = UiState::new();
    for _ in 0..2 {
        u.handle_key(&s, &lines, 'b', KeyInput { code: Key::Char('b'), ctrl: true, alt: false });
        u.handle_key(&s, &lines, 'b', key('m'));
    }
    assert!(!u.show_meta);
    assert!(!u.prefix);
}

#[test]
fn page_up_then_down_restores_scrolling() {
    let s = snapshot();
    let lines: Vec<String> = Vec::new();
    let mut u = UiState::new();
    let up = KeyInput { code: Key::PageUp, ctrl: false, alt: false };
    let down = KeyInput { code: Key::PageDown, ctrl: false, alt: false };
    assert!(matches!(u.handle_key(&s, &lines, 'b', up), UiAction::Nothing));
    assert_eq!(u.scroll_offset, 10);
    assert!(u.scroll_mode);
    assert_eq!(u.notice.as_deref(), Some("scroll mode offset=10"));
    assert!(matches!(u.handle_key(&s, &lines, 'b', down), UiAction::Nothing));
    assert_eq!(u.scroll_offset, 0);
    assert!(!u.scroll_mode);
    assert_eq!(u.notice.as_deref(), Some("scroll mode offset=0"));
}

#[test]
fn prefix_d_detaches_the_attached_session() {
    let s = snapshot();
    let lines: Vec<String> = Vec::new();
    let mut u = UiState::new();
    u.handle_key(&s, &lines, 'b', KeyInput { code: Key::Char('b'), ctrl: true, alt: false });
    match u.handle_key(&s, &lines, 'b', key('d')) {
        UiAction::Detach(Request::DetachClient { session }) => assert_eq!(session.as_deref(), Some("work")),
        _ => panic!("expected a detach request"),
    }
}
