//! What the server asks its runtime to do (start and stop shells, write
//! keys, read output, run files and shell commands), what the runtime
//! reports back, and where a command waits meanwhile.
use vstd::prelude::*;
use crate::text::views_of;
use crate::proto::{Response, ResponseView};

verus! {

/// The views of some numbered lines.
pub open spec fn numbered_view(v: Seq<(usize, String)>) -> Seq<(usize, Seq<char>)> {
    v.map_values(|e: (usize, String)| (e.0, e.1@))
}

/// The views of some numbered answers.
pub open spec fn replies_view(v: Seq<(usize, Response)>) -> Seq<(usize, ResponseView)> {
    v.map_values(|e: (usize, Response)| (e.0, e.1@))
}

/// Work that only the runtime can do.
#[derive(Debug)]
pub enum Effect {
    /// Start the shell of a new pane (if it is not running).
    EnsurePane(u64),
    /// Stop the shells of removed panes.
    RemovePanes(Vec<u64>),
    /// Write keys to a pane's shell.
    SendKeys { pane_id: u64, keys: Vec<String>, literal: bool },
    /// Wait briefly, then read what a pane's shell has printed.
    ReadOutput(u64),
    /// Read what every pane's shell has printed.
    SnapshotOutputs,
    /// Give the terminals of some panes a size.
    ResizePtys { pane_ids: Vec<u64>, rows: u16, cols: u16 },
    /// Restart a pane's shell.
    RespawnPane(u64),
    /// Start or stop piping a pane's output to a shell command.
    TogglePipe { pane_id: u64, command: Option<String> },
    /// Forget what a pane's shell has printed.
    ClearHistory(u64),
    /// Read a file.
    ReadFile(String),
    /// Run each numbered line as a raw command and hand back the answers.
    RunCommands(Vec<(usize, String)>),
    /// Run a shell command and capture what it prints.
    RunShell(String),
    /// Run a shell command and report whether it succeeds.
    TestShell(String),
}

/// What a `Effect` holds, with its strings as character sequences.
pub enum EffectView {
    EnsurePane(u64),
    RemovePanes(Seq<u64>),
    SendKeys { pane_id: u64, keys: Seq<Seq<char>>, literal: bool },
    ReadOutput(u64),
    SnapshotOutputs,
    ResizePtys { pane_ids: Seq<u64>, rows: u16, cols: u16 },
    RespawnPane(u64),
    TogglePipe { pane_id: u64, command: Option<Seq<char>> },
    ClearHistory(u64),
    ReadFile(Seq<char>),
    RunCommands(Seq<(usize, Seq<char>)>),
    RunShell(Seq<char>),
    TestShell(Seq<char>),
}

impl View for Effect {
    type V = EffectView;

    open spec fn view(&self) -> EffectView {
        match self {
            Effect::EnsurePane(v) => EffectView::EnsurePane(*v),
            Effect::RemovePanes(v) => EffectView::RemovePanes(v@),
            Effect::SendKeys { pane_id, keys, literal } => EffectView::SendKeys { pane_id: *pane_id, keys: views_of(keys@), literal: *literal },
            Effect::ReadOutput(v) => EffectView::ReadOutput(*v),
            Effect::SnapshotOutputs => EffectView::SnapshotOutputs,
            Effect::ResizePtys { pane_ids, rows, cols } => EffectView::ResizePtys { pane_ids: pane_ids@, rows: *rows, cols: *cols },
            Effect::RespawnPane(v) => EffectView::RespawnPane(*v),
            Effect::TogglePipe { pane_id, command } => EffectView::TogglePipe { pane_id: *pane_id, command: command.deep_view() },
            Effect::ClearHistory(v) => EffectView::ClearHistory(*v),
            Effect::ReadFile(v) => EffectView::ReadFile(v@),
            Effect::RunCommands(v) => EffectView::RunCommands(numbered_view(v@)),
            Effect::RunShell(v) => EffectView::RunShell(v@),
            Effect::TestShell(v) => EffectView::TestShell(v@),
        }
    }
}

/// Where a command waits while the runtime works.
#[derive(Debug)]
pub enum Pending {
    /// Whatever happens, answer with this response.
    Reply(Response),
    /// Answer with this response, or with the failure.
    ReplyUnlessFailed(Response),
    /// Keys went to the pane: read its output next.
    KeysSent { pane_id: u64, reply: Response },
    /// Record the pane's output, then answer.
    OutputRead { pane_id: u64, reply: Response },
    /// Record every pane's output, then list the panes.
    ListPanes { session: Option<String>, window: Option<String> },
    /// Record every pane's output, then capture a pane's lines.
    CapturePane { session: Option<String>, window: Option<String>, pane: Option<String>, lines: Option<usize> },
    /// Whatever happens, record the command and accept it.
    Recorded(String),
    /// Record the command and accept it, unless the effect failed.
    RecordedUnlessFailed(String),
    /// Record the command and accept it with the pipe's own message.
    Piped(String),
    /// The file to source was read: run its lines.
    SourceRead { path: String, rendered: String },
    /// The file's lines ran: record the command and sum up.
    Sourced(String),
    /// The shell command ran: record the command and report its output.
    ShellRan(String),
    /// The condition ran: record the command and run the branch it picks.
    ShellTested { rendered: String, true_cmd: String, false_cmd: Option<String> },
}

/// What a `Pending` holds, with its strings as character sequences.
pub enum PendingView {
    Reply(ResponseView),
    ReplyUnlessFailed(ResponseView),
    KeysSent { pane_id: u64, reply: ResponseView },
    OutputRead { pane_id: u64, reply: ResponseView },
    ListPanes { session: Option<Seq<char>>, window: Option<Seq<char>> },
    CapturePane { session: Option<Seq<char>>, window: Option<Seq<char>>, pane: Option<Seq<char>>, lines: Option<usize> },
    Recorded(Seq<char>),
    RecordedUnlessFailed(Seq<char>),
    Piped(Seq<char>),
    SourceRead { path: Seq<char>, rendered: Seq<char> },
    Sourced(Seq<char>),
    ShellRan(Seq<char>),
    ShellTested { rendered: Seq<char>, true_cmd: Seq<char>, false_cmd: Option<Seq<char>> },
}

impl View for Pending {
    type V = PendingView;

    open spec fn view(&self) -> PendingView {
        match self {
            Pending::Reply(v) => PendingView::Reply(v@),
            Pending::ReplyUnlessFailed(v) => PendingView::ReplyUnlessFailed(v@),
            Pending::KeysSent { pane_id, reply } => PendingView::KeysSent { pane_id: *pane_id, reply: reply@ },
            Pending::OutputRead { pane_id, reply } => PendingView::OutputRead { pane_id: *pane_id, reply: reply@ },
            Pending::ListPanes { session, window } => PendingView::ListPanes { session: session.deep_view(), window: window.deep_view() },
            Pending::CapturePane { session, window, pane, lines } => PendingView::CapturePane { session: session.deep_view(), window: window.deep_view(), pane: pane.deep_view(), lines: *lines },
            Pending::Recorded(v) => PendingView::Recorded(v@),
            Pending::RecordedUnlessFailed(v) => PendingView::RecordedUnlessFailed(v@),
            Pending::Piped(v) => PendingView::Piped(v@),
            Pending::SourceRead { path, rendered } => PendingView::SourceRead { path: path@, rendered: rendered@ },
            Pending::Sourced(v) => PendingView::Sourced(v@),
            Pending::ShellRan(v) => PendingView::ShellRan(v@),
            Pending::ShellTested { rendered, true_cmd, false_cmd } => PendingView::ShellTested { rendered: rendered@, true_cmd: true_cmd@, false_cmd: false_cmd.deep_view() },
        }
    }
}

/// What the runtime reports after doing an effect.
#[derive(Debug)]
pub enum Event {
    /// The effect was done.
    Done,
    /// The effect failed; the message says why.
    Failed(String),
    /// A pane's output, if its shell runs.
    Output(Option<String>),
    /// Every running pane's output.
    Outputs(Vec<(u64, String)>),
    /// The pipe was toggled, with its message, if any.
    Piped(Option<String>),
    /// A file's contents.
    FileRead(String),
    /// What a shell command printed.
    ShellOutput { stdout: String, stderr: String },
    /// Whether a shell command succeeded.
    Status(bool),
    /// The answers to numbered commands.
    Replies(Vec<(usize, Response)>),
}

/// The next move of a command: answer, or have the runtime do an effect and
/// come back with what it reports.
#[derive(Debug)]
pub enum Step {
    Reply(Response),
    Perform(Effect, Pending),
}

/// What a `Step` holds.
pub enum StepView {
    Reply(ResponseView),
    Perform(EffectView, PendingView),
}

impl View for Step {
    type V = StepView;

    open spec fn view(&self) -> StepView {
        match self {
            Step::Reply(r) => StepView::Reply(r@),
            Step::Perform(e, p) => StepView::Perform(e@, p@),
        }
    }
}

} // verus!
