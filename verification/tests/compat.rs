use dmux::compat::CompatState;
use dmux::dispatch::{handle_request, resume};
use dmux::effects::{Effect, Event, Step};
use dmux::proto::{Request, Response};
use dmux::state::ServerState;

/// What the runtime reports in these tests: a file's contents, a shell
/// command's output and a test's outcome are given; the rest is done.
struct Scripted {
    file: Option<String>,
    stdout: String,
    status: bool,
}

fn drive(state: &mut ServerState, compat: &mut CompatState, rt: &Scripted, request: Request) -> Response {
    assert!(state.fits());
    let mut step = handle_request(state, compat, request);
    loop {
        match step {
            Step::Reply(r) => return r,
            Step::Perform(effect, pending) => {
                let event = match effect {
                    Effect::ReadOutput(_) => Event::Output(None),
                    Effect::SnapshotOutputs => Event::Outputs(Vec::new()),
                    Effect::ReadFile(_) => match &rt.file {
                        Some(c) => Event::FileRead(c.clone()),
                        None => Event::Failed("No such file or directory (os error 2)".to_string()),
                    },
                    Effect::RunCommands(lines) => {
                        let mut replies = Vec::new();
                        for (n, command) in lines {
                            replies.push((n, drive(state, compat, rt, Request::ExecuteRaw { command })));
                        }
                        Event::Replies(replies)
                    }
                    Effect::RunShell(_) => Event::ShellOutput { stdout: rt.stdout.clone(), stderr: String::new() },
                    Effect::TestShell(_) => Event::Status(rt.status),
                    _ => Event::Done,
                };
                assert!(state.fits());
                step = resume(state, compat, pending, event);
            }
        }
    }
}

fn quiet() -> Scripted {
    Scripted { file: None, stdout: String::new(), status: false }
}

fn raw(state: &mut ServerState, compat: &mut CompatState, rt: &Scripted, command: &str) -> Response {
    drive(state, compat, rt, Request::ExecuteRaw { command: command.to_string() })
}

fn accepted(r: Response) -> String {
    match r {
        Response::CommandAccepted { command } => command,
        other => panic!("unexpected {other:?}"),
    }
}

fn listed(r: Response) -> Vec<String> {
    match r {
        Response::Commands(v) => v,
        other => panic!("unexpected {other:?}"),
    }
}

#[test]
fn key_bindings_are_listed() {
    let mut s = ServerState::new();
    let mut c = CompatState::new();
    let rt = quiet();
    assert_eq!(accepted(raw(&mut s, &mut c, &rt, "bind-key x kill-pane")), "bind-key x");
    assert_eq!(listed(raw(&mut s, &mut c, &rt, "list-keys")), vec!["x -> kill-pane".to_string()]);
    assert_eq!(accepted(raw(&mut s, &mut c, &rt, "unbind-key x")), "unbind-key x");
    assert!(listed(raw(&mut s, &mut c, &rt, "list-keys")).is_empty());
    assert!(matches!(raw(&mut s, &mut c, &rt, "bind-key x"), Response::Error { .. }));
}

#[test]
fn buffers_store_and_show() {
    let mut s = ServerState::new();
    let mut c = CompatState::new();
    let rt = quiet();
    assert_eq!(accepted(raw(&mut s, &mut c, &rt, "set-buffer b0 hello world")), "set_buffer b0");
    assert_eq!(listed(raw(&mut s, &mut c, &rt, "list-buffers")), vec!["b0:11".to_string()]);
    assert_eq!(listed(raw(&mut s, &mut c, &rt, "show-buffer b0")), vec!["hello world".to_string()]);
    assert_eq!(listed(raw(&mut s, &mut c, &rt, "show-buffer nope")), vec![String::new()]);
    assert_eq!(accepted(raw(&mut s, &mut c, &rt, "delete-buffer")), "delete-buffer all");
    assert!(listed(raw(&mut s, &mut c, &rt, "list-buffers")).is_empty());
}

#[test]
fn window_options_read_back() {
    let mut s = ServerState::new();
    let mut c = CompatState::new();
    let rt = quiet();
    assert_eq!(
        accepted(raw(&mut s, &mut c, &rt, "set-window-option mode-keys vi")),
        "set-window-option mode-keys"
    );
    assert_eq!(listed(raw(&mut s, &mut c, &rt, "show-window-options mode-keys")), vec!["mode-keys=vi".to_string()]);
    assert_eq!(listed(raw(&mut s, &mut c, &rt, "show-window-options other")), vec!["other=".to_string()]);
}

#[test]
fn source_file_runs_each_line() {
    let mut s = ServerState::new();
    let mut c = CompatState::new();
    let rt = Scripted {
        file: Some("# comment\nnew-session cfg\n\nset-option status on\n".to_string()),
        stdout: String::new(),
        status: false,
    };
    assert_eq!(
        accepted(raw(&mut s, &mut c, &rt, "source-file /tmp/x.conf")),
        "source-file /tmp/x.conf: executed 2"
    );
    assert!(s.has_session("cfg"));
    assert_eq!(listed(raw(&mut s, &mut c, &rt, "show-prompt-history")), vec!["source-file /tmp/x.conf".to_string()]);
}

#[test]
fn source_file_reports_failing_lines() {
    let mut s = ServerState::new();
    let mut c = CompatState::new();
    let rt = Scripted { file: Some("no-such-command\n".to_string()), stdout: String::new(), status: false };
    match raw(&mut s, &mut c, &rt, "source-file f") {
        Response::Error { message } => assert!(message.starts_with("source-file: 1 errors: line 1: ")),
        other => panic!("unexpected {other:?}"),
    }
}

#[test]
fn source_file_unreadable_is_an_error() {
    let mut s = ServerState::new();
    let mut c = CompatState::new();
    match raw(&mut s, &mut c, &quiet(), "source-file missing") {
        Response::Error { message } => assert_eq!(message, "read missing: No such file or directory (os error 2)"),
        other => panic!("unexpected {other:?}"),
    }
}

#[test]
fn run_shell_lists_output_lines() {
    let mut s = ServerState::new();
    let mut c = CompatState::new();
    let rt = Scripted { file: None, stdout: "one\ntwo\n".to_string(), status: false };
    assert_eq!(listed(raw(&mut s, &mut c, &rt, "run-shell date")), vec!["one".to_string(), "two".to_string()]);
    assert!(matches!(raw(&mut s, &mut c, &rt, "run-shell"), Response::Error { .. }));
}

#[test]
fn if_shell_takes_the_branch_of_the_test() {
    let mut s = ServerState::new();
    let mut c = CompatState::new();
    let yes = Scripted { file: None, stdout: String::new(), status: true };
    let no = quiet();
    match raw(&mut s, &mut c, &yes, "if-shell true new-session list-sessions") {
        Response::SessionCreated { name, .. } => assert_eq!(name, "default"),
        other => panic!("unexpected {other:?}"),
    }
    assert_eq!(
        accepted(raw(&mut s, &mut c, &no, "if-shell false new-session")),
        "if-shell false new-session: no branch"
    );
}
