//! The messages between client and server: requests, responses and the
//! records that responses carry.
use vstd::prelude::*;
use crate::text::views_of;

verus! {

/// A request from a client to the server.
#[derive(Debug)]
pub enum Request {
    Ping,
    CreateSession { name: String },
    HasSession { name: String },
    AttachSession { session: Option<String> },
    SwitchClient { session: Option<String> },
    DetachClient { session: Option<String> },
    KillSession { name: String },
    RenameSession { name: String, new_name: String },
    CreateWindow { session: Option<String>, name: Option<String> },
    RenameWindow { session: Option<String>, window: Option<String>, new_name: String },
    KillWindow { session: Option<String>, window: Option<String> },
    NextWindow { session: Option<String> },
    PreviousWindow { session: Option<String> },
    LastWindow { session: Option<String> },
    SelectWindow { session: Option<String>, window: String },
    SplitWindow {
        session: Option<String>,
        window: Option<String>,
        title: Option<String>,
        orientation: SplitOrientation,
    },
    KillPane { session: Option<String>, window: Option<String>, pane: Option<String> },
    SelectPane { session: Option<String>, window: Option<String>, pane: String },
    LastPane { session: Option<String>, window: Option<String> },
    LockClient,
    LockServer,
    LockSession { session: Option<String> },
    SuspendClient,
    DisplayMessage { message: String },
    ShowMessages,
    SetOption { name: String, value: String },
    ShowOptions { name: Option<String> },
    SetEnvironment { name: String, value: String },
    ShowEnvironment { name: Option<String> },
    CompatCommand { name: String, target: Option<String>, args: Vec<String> },
    KillServer,
    StartServer,
    SendKeys {
        session: Option<String>,
        window: Option<String>,
        pane: Option<String>,
        keys: Vec<String>,
        literal: bool,
    },
    ListSessions,
    ListCommands,
    ListClients,
    ListWindows { session: Option<String> },
    ListPanes { session: Option<String>, window: Option<String> },
    ResizePane {
        session: Option<String>,
        window: Option<String>,
        pane: Option<String>,
        direction: ResizeDir,
        amount: u16,
    },
    CapturePane {
        session: Option<String>,
        window: Option<String>,
        pane: Option<String>,
        lines: Option<usize>,
    },
    ToggleFloating { session: Option<String>, window: Option<String>, pane: Option<String> },
    ExecuteRaw { command: String },
}

/// The direction of a pane resize.
#[derive(Debug, Clone, Copy, PartialEq, Eq, Structural)]
pub enum ResizeDir {
    Up,
    Down,
    Left,
    Right,
}

/// How a split divides its area: `Horizontal` stacks top to bottom,
/// `Vertical` side by side.
#[derive(Debug, Clone, Copy, PartialEq, Eq, Structural, Default)]
pub enum SplitOrientation {
    #[default]
    Horizontal,
    Vertical,
}

/// A window's split tree, as sent to clients.
#[derive(Debug)]
pub enum SplitNodeInfo {
    Leaf { pane_id: u64 },
    Split {
        orientation: SplitOrientation,
        split_ratio: u16,
        first: Box<SplitNodeInfo>,
        second: Box<SplitNodeInfo>,
    },
}

/// What a `Request` holds, with its strings as character sequences.
pub enum RequestView {
    Ping,
    CreateSession { name: Seq<char> },
    HasSession { name: Seq<char> },
    AttachSession { session: Option<Seq<char>> },
    SwitchClient { session: Option<Seq<char>> },
    DetachClient { session: Option<Seq<char>> },
    KillSession { name: Seq<char> },
    RenameSession { name: Seq<char>, new_name: Seq<char> },
    CreateWindow { session: Option<Seq<char>>, name: Option<Seq<char>> },
    RenameWindow { session: Option<Seq<char>>, window: Option<Seq<char>>, new_name: Seq<char> },
    KillWindow { session: Option<Seq<char>>, window: Option<Seq<char>> },
    NextWindow { session: Option<Seq<char>> },
    PreviousWindow { session: Option<Seq<char>> },
    LastWindow { session: Option<Seq<char>> },
    SelectWindow { session: Option<Seq<char>>, window: Seq<char> },
    SplitWindow { session: Option<Seq<char>>, window: Option<Seq<char>>, title: Option<Seq<char>>, orientation: SplitOrientation },
    KillPane { session: Option<Seq<char>>, window: Option<Seq<char>>, pane: Option<Seq<char>> },
    SelectPane { session: Option<Seq<char>>, window: Option<Seq<char>>, pane: Seq<char> },
    LastPane { session: Option<Seq<char>>, window: Option<Seq<char>> },
    LockClient,
    LockServer,
    LockSession { session: Option<Seq<char>> },
    SuspendClient,
    DisplayMessage { message: Seq<char> },
    ShowMessages,
    SetOption { name: Seq<char>, value: Seq<char> },
    ShowOptions { name: Option<Seq<char>> },
    SetEnvironment { name: Seq<char>, value: Seq<char> },
    ShowEnvironment { name: Option<Seq<char>> },
    CompatCommand { name: Seq<char>, target: Option<Seq<char>>, args: Seq<Seq<char>> },
    KillServer,
    StartServer,
    SendKeys { session: Option<Seq<char>>, window: Option<Seq<char>>, pane: Option<Seq<char>>, keys: Seq<Seq<char>>, literal: bool },
    ListSessions,
    ListCommands,
    ListClients,
    ListWindows { session: Option<Seq<char>> },
    ListPanes { session: Option<Seq<char>>, window: Option<Seq<char>> },
    ResizePane { session: Option<Seq<char>>, window: Option<Seq<char>>, pane: Option<Seq<char>>, direction: ResizeDir, amount: u16 },
    CapturePane { session: Option<Seq<char>>, window: Option<Seq<char>>, pane: Option<Seq<char>>, lines: Option<usize> },
    ToggleFloating { session: Option<Seq<char>>, window: Option<Seq<char>>, pane: Option<Seq<char>> },
    ExecuteRaw { command: Seq<char> },
}

impl View for Request {
    type V = RequestView;

    open spec fn view(&self) -> RequestView {
        match self {
            Request::Ping => RequestView::Ping,
            Request::CreateSession { name } => RequestView::CreateSession { name: name@ },
            Request::HasSession { name } => RequestView::HasSession { name: name@ },
            Request::AttachSession { session } => RequestView::AttachSession { session: session.deep_view() },
            Request::SwitchClient { session } => RequestView::SwitchClient { session: session.deep_view() },
            Request::DetachClient { session } => RequestView::DetachClient { session: session.deep_view() },
            Request::KillSession { name } => RequestView::KillSession { name: name@ },
            Request::RenameSession { name, new_name } => RequestView::RenameSession { name: name@, new_name: new_name@ },
            Request::CreateWindow { session, name } => RequestView::CreateWindow { session: session.deep_view(), name: name.deep_view() },
            Request::RenameWindow { session, window, new_name } => RequestView::RenameWindow { session: session.deep_view(), window: window.deep_view(), new_name: new_name@ },
            Request::KillWindow { session, window } => RequestView::KillWindow { session: session.deep_view(), window: window.deep_view() },
            Request::NextWindow { session } => RequestView::NextWindow { session: session.deep_view() },
            Request::PreviousWindow { session } => RequestView::PreviousWindow { session: session.deep_view() },
            Request::LastWindow { session } => RequestView::LastWindow { session: session.deep_view() },
            Request::SelectWindow { session, window } => RequestView::SelectWindow { session: session.deep_view(), window: window@ },
            Request::SplitWindow { session, window, title, orientation } => RequestView::SplitWindow { session: session.deep_view(), window: window.deep_view(), title: title.deep_view(), orientation: *orientation },
            Request::KillPane { session, window, pane } => RequestView::KillPane { session: session.deep_view(), window: window.deep_view(), pane: pane.deep_view() },
            Request::SelectPane { session, window, pane } => RequestView::SelectPane { session: session.deep_view(), window: window.deep_view(), pane: pane@ },
            Request::LastPane { session, window } => RequestView::LastPane { session: session.deep_view(), window: window.deep_view() },
            Request::LockClient => RequestView::LockClient,
            Request::LockServer => RequestView::LockServer,
            Request::LockSession { session } => RequestView::LockSession { session: session.deep_view() },
            Request::SuspendClient => RequestView::SuspendClient,
            Request::DisplayMessage { message } => RequestView::DisplayMessage { message: message@ },
            Request::ShowMessages => RequestView::ShowMessages,
            Request::SetOption { name, value } => RequestView::SetOption { name: name@, value: value@ },
            Request::ShowOptions { name } => RequestView::ShowOptions { name: name.deep_view() },
            Request::SetEnvironment { name, value } => RequestView::SetEnvironment { name: name@, value: value@ },
            Request::ShowEnvironment { name } => RequestView::ShowEnvironment { name: name.deep_view() },
            Request::CompatCommand { name, target, args } => RequestView::CompatCommand { name: name@, target: target.deep_view(), args: views_of(args@) },
            Request::KillServer => RequestView::KillServer,
            Request::StartServer => RequestView::StartServer,
            Request::SendKeys { session, window, pane, keys, literal } => RequestView::SendKeys { session: session.deep_view(), window: window.deep_view(), pane: pane.deep_view(), keys: views_of(keys@), literal: *literal },
            Request::ListSessions => RequestView::ListSessions,
            Request::ListCommands => RequestView::ListCommands,
            Request::ListClients => RequestView::ListClients,
            Request::ListWindows { session } => RequestView::ListWindows { session: session.deep_view() },
            Request::ListPanes { session, window } => RequestView::ListPanes { session: session.deep_view(), window: window.deep_view() },
            Request::ResizePane { session, window, pane, direction, amount } => RequestView::ResizePane { session: session.deep_view(), window: window.deep_view(), pane: pane.deep_view(), direction: *direction, amount: *amount },
            Request::CapturePane { session, window, pane, lines } => RequestView::CapturePane { session: session.deep_view(), window: window.deep_view(), pane: pane.deep_view(), lines: *lines },
            Request::ToggleFloating { session, window, pane } => RequestView::ToggleFloating { session: session.deep_view(), window: window.deep_view(), pane: pane.deep_view() },
            Request::ExecuteRaw { command } => RequestView::ExecuteRaw { command: command@ },
        }
    }
}

/// One line of the session list.
#[derive(Debug)]
pub struct SessionInfo {
    pub id: u64,
    pub name: String,
    pub windows: usize,
    pub panes: usize,
}

/// What a `SessionInfo` holds, with its strings as character sequences.
pub struct SessionInfoView {
    pub id: u64,
    pub name: Seq<char>,
    pub windows: usize,
    pub panes: usize,
}

impl View for SessionInfo {
    type V = SessionInfoView;

    open spec fn view(&self) -> SessionInfoView {
        SessionInfoView {
            id: self.id,
            name: self.name@,
            windows: self.windows,
            panes: self.panes,
        }
    }
}

/// One line of the window list.
#[derive(Debug)]
pub struct WindowInfo {
    pub session_id: u64,
    pub session_name: String,
    pub window_id: u64,
    pub window_name: String,
    pub pane_count: usize,
    pub active: bool,
    pub layout: SplitOrientation,
    pub layout_tree: Option<SplitNodeInfo>,
}

/// What a `WindowInfo` holds, with its strings as character sequences.
pub struct WindowInfoView {
    pub session_id: u64,
    pub session_name: Seq<char>,
    pub window_id: u64,
    pub window_name: Seq<char>,
    pub pane_count: usize,
    pub active: bool,
    pub layout: SplitOrientation,
    pub layout_tree: Option<SplitNodeInfo>,
}

impl View for WindowInfo {
    type V = WindowInfoView;

    open spec fn view(&self) -> WindowInfoView {
        WindowInfoView {
            session_id: self.session_id,
            session_name: self.session_name@,
            window_id: self.window_id,
            window_name: self.window_name@,
            pane_count: self.pane_count,
            active: self.active,
            layout: self.layout,
            layout_tree: self.layout_tree,
        }
    }
}

/// One line of the pane list.
#[derive(Debug)]
pub struct PaneInfo {
    pub session_id: u64,
    pub session_name: String,
    pub window_id: u64,
    pub window_name: String,
    pub pane_id: u64,
    pub pane_title: String,
    pub active: bool,
    pub last_input: Option<String>,
    pub last_output: Option<String>,
    pub rows: u16,
    pub cols: u16,
    pub floating: bool,
}

/// What a `PaneInfo` holds, with its strings as character sequences.
pub struct PaneInfoView {
    pub session_id: u64,
    pub session_name: Seq<char>,
    pub window_id: u64,
    pub window_name: Seq<char>,
    pub pane_id: u64,
    pub pane_title: Seq<char>,
    pub active: bool,
    pub last_input: Option<Seq<char>>,
    pub last_output: Option<Seq<char>>,
    pub rows: u16,
    pub cols: u16,
    pub floating: bool,
}

impl View for PaneInfo {
    type V = PaneInfoView;

    open spec fn view(&self) -> PaneInfoView {
        PaneInfoView {
            session_id: self.session_id,
            session_name: self.session_name@,
            window_id: self.window_id,
            window_name: self.window_name@,
            pane_id: self.pane_id,
            pane_title: self.pane_title@,
            active: self.active,
            last_input: self.last_input.deep_view(),
            last_output: self.last_output.deep_view(),
            rows: self.rows,
            cols: self.cols,
            floating: self.floating,
        }
    }
}

/// One line of the client list.
#[derive(Debug)]
pub struct ClientInfo {
    pub id: u64,
    pub name: String,
    pub attached_session: Option<String>,
    pub locked: bool,
    pub suspended: bool,
    pub server_locked: bool,
}

/// What a `ClientInfo` holds, with its strings as character sequences.
pub struct ClientInfoView {
    pub id: u64,
    pub name: Seq<char>,
    pub attached_session: Option<Seq<char>>,
    pub locked: bool,
    pub suspended: bool,
    pub server_locked: bool,
}

impl View for ClientInfo {
    type V = ClientInfoView;

    open spec fn view(&self) -> ClientInfoView {
        ClientInfoView {
            id: self.id,
            name: self.name@,
            attached_session: self.attached_session.deep_view(),
            locked: self.locked,
            suspended: self.suspended,
            server_locked: self.server_locked,
        }
    }
}

/// A named value: an option or an environment variable.
#[derive(Debug)]
pub struct NameValue {
    pub name: String,
    pub value: String,
}

/// What a `NameValue` holds, with its strings as character sequences.
pub struct NameValueView {
    pub name: Seq<char>,
    pub value: Seq<char>,
}

impl View for NameValue {
    type V = NameValueView;

    open spec fn view(&self) -> NameValueView {
        NameValueView {
            name: self.name@,
            value: self.value@,
        }
    }
}

/// The views of some `SessionInfo` records.
pub open spec fn session_infos_view(v: Seq<SessionInfo>) -> Seq<SessionInfoView> {
    v.map_values(|x: SessionInfo| x@)
}

/// The views of some `ClientInfo` records.
pub open spec fn client_infos_view(v: Seq<ClientInfo>) -> Seq<ClientInfoView> {
    v.map_values(|x: ClientInfo| x@)
}

/// The views of some `NameValue` records.
pub open spec fn name_values_view(v: Seq<NameValue>) -> Seq<NameValueView> {
    v.map_values(|x: NameValue| x@)
}

/// The views of some `WindowInfo` records.
pub open spec fn window_infos_view(v: Seq<WindowInfo>) -> Seq<WindowInfoView> {
    v.map_values(|x: WindowInfo| x@)
}

/// The views of some `PaneInfo` records.
pub open spec fn pane_infos_view(v: Seq<PaneInfo>) -> Seq<PaneInfoView> {
    v.map_values(|x: PaneInfo| x@)
}

/// The server's answer to a request.
#[derive(Debug)]
pub enum Response {
    Pong,
    SessionCheck { name: String, exists: bool },
    SessionAttached { name: String },
    ClientSwitched { from: Option<String>, to: String },
    ClientDetached { name: String },
    SessionCreated { id: u64, name: String },
    SessionKilled { id: u64, name: String },
    SessionRenamed { id: u64, old_name: String, new_name: String },
    WindowCreated { session: String, id: u64, name: String },
    WindowRenamed { session: String, id: u64, old_name: String, new_name: String },
    WindowKilled { session: String, id: u64, name: String },
    WindowSelected { session: String, id: u64, name: String },
    PaneResized { session: String, window_id: u64, pane_id: u64, rows: u16, cols: u16 },
    PaneCaptured { pane_id: u64, lines: Vec<String> },
    PaneFloated { pane_id: u64, floating: bool },
    PaneCreated { session: String, window_id: u64, pane_id: u64, title: String },
    PaneKilled { session: String, window_id: u64, pane_id: u64, title: String },
    PaneSelected { session: String, window_id: u64, pane_id: u64, title: String },
    KeysSent { session: String, window_id: u64, pane_id: u64, payload: String },
    Sessions(Vec<SessionInfo>),
    Commands(Vec<String>),
    Clients(Vec<ClientInfo>),
    ClientLocked { name: String },
    ClientSuspended { name: String },
    ServerLocked,
    SessionLocked { name: String },
    MessageDisplayed { message: String },
    Messages(Vec<String>),
    OptionSet { name: String, value: String },
    Options(Vec<NameValue>),
    EnvironmentSet { name: String, value: String },
    Environment(Vec<NameValue>),
    Windows(Vec<WindowInfo>),
    Panes(Vec<PaneInfo>),
    CommandAccepted { command: String },
    Error { message: String },
}

/// What a `Response` holds, with its strings as character sequences.
pub enum ResponseView {
    Pong,
    SessionCheck { name: Seq<char>, exists: bool },
    SessionAttached { name: Seq<char> },
    ClientSwitched { from: Option<Seq<char>>, to: Seq<char> },
    ClientDetached { name: Seq<char> },
    SessionCreated { id: u64, name: Seq<char> },
    SessionKilled { id: u64, name: Seq<char> },
    SessionRenamed { id: u64, old_name: Seq<char>, new_name: Seq<char> },
    WindowCreated { session: Seq<char>, id: u64, name: Seq<char> },
    WindowRenamed { session: Seq<char>, id: u64, old_name: Seq<char>, new_name: Seq<char> },
    WindowKilled { session: Seq<char>, id: u64, name: Seq<char> },
    WindowSelected { session: Seq<char>, id: u64, name: Seq<char> },
    PaneResized { session: Seq<char>, window_id: u64, pane_id: u64, rows: u16, cols: u16 },
    PaneCaptured { pane_id: u64, lines: Seq<Seq<char>> },
    PaneFloated { pane_id: u64, floating: bool },
    PaneCreated { session: Seq<char>, window_id: u64, pane_id: u64, title: Seq<char> },
    PaneKilled { session: Seq<char>, window_id: u64, pane_id: u64, title: Seq<char> },
    PaneSelected { session: Seq<char>, window_id: u64, pane_id: u64, title: Seq<char> },
    KeysSent { session: Seq<char>, window_id: u64, pane_id: u64, payload: Seq<char> },
    Sessions(Seq<SessionInfoView>),
    Commands(Seq<Seq<char>>),
    Clients(Seq<ClientInfoView>),
    ClientLocked { name: Seq<char> },
    ClientSuspended { name: Seq<char> },
    ServerLocked,
    SessionLocked { name: Seq<char> },
    MessageDisplayed { message: Seq<char> },
    Messages(Seq<Seq<char>>),
    OptionSet { name: Seq<char>, value: Seq<char> },
    Options(Seq<NameValueView>),
    EnvironmentSet { name: Seq<char>, value: Seq<char> },
    Environment(Seq<NameValueView>),
    Windows(Seq<WindowInfoView>),
    Panes(Seq<PaneInfoView>),
    CommandAccepted { command: Seq<char> },
    Error { message: Seq<char> },
}

impl View for Response {
    type V = ResponseView;

    open spec fn view(&self) -> ResponseView {
        match self {
            Response::Pong => ResponseView::Pong,
            Response::SessionCheck { name, exists } => ResponseView::SessionCheck { name: name@, exists: *exists },
            Response::SessionAttached { name } => ResponseView::SessionAttached { name: name@ },
            Response::ClientSwitched { from, to } => ResponseView::ClientSwitched { from: from.deep_view(), to: to@ },
            Response::ClientDetached { name } => ResponseView::ClientDetached { name: name@ },
            Response::SessionCreated { id, name } => ResponseView::SessionCreated { id: *id, name: name@ },
            Response::SessionKilled { id, name } => ResponseView::SessionKilled { id: *id, name: name@ },
            Response::SessionRenamed { id, old_name, new_name } => ResponseView::SessionRenamed { id: *id, old_name: old_name@, new_name: new_name@ },
            Response::WindowCreated { session, id, name } => ResponseView::WindowCreated { session: session@, id: *id, name: name@ },
            Response::WindowRenamed { session, id, old_name, new_name } => ResponseView::WindowRenamed { session: session@, id: *id, old_name: old_name@, new_name: new_name@ },
            Response::WindowKilled { session, id, name } => ResponseView::WindowKilled { session: session@, id: *id, name: name@ },
            Response::WindowSelected { session, id, name } => ResponseView::WindowSelected { session: session@, id: *id, name: name@ },
            Response::PaneResized { session, window_id, pane_id, rows, cols } => ResponseView::PaneResized { session: session@, window_id: *window_id, pane_id: *pane_id, rows: *rows, cols: *cols },
            Response::PaneCaptured { pane_id, lines } => ResponseView::PaneCaptured { pane_id: *pane_id, lines: views_of(lines@) },
            Response::PaneFloated { pane_id, floating } => ResponseView::PaneFloated { pane_id: *pane_id, floating: *floating },
            Response::PaneCreated { session, window_id, pane_id, title } => ResponseView::PaneCreated { session: session@, window_id: *window_id, pane_id: *pane_id, title: title@ },
            Response::PaneKilled { session, window_id, pane_id, title } => ResponseView::PaneKilled { session: session@, window_id: *window_id, pane_id: *pane_id, title: title@ },
            Response::PaneSelected { session, window_id, pane_id, title } => ResponseView::PaneSelected { session: session@, window_id: *window_id, pane_id: *pane_id, title: title@ },
            Response::KeysSent { session, window_id, pane_id, payload } => ResponseView::KeysSent { session: session@, window_id: *window_id, pane_id: *pane_id, payload: payload@ },
            Response::Sessions(v) => ResponseView::Sessions(session_infos_view(v@)),
            Response::Commands(v) => ResponseView::Commands(views_of(v@)),
            Response::Clients(v) => ResponseView::Clients(client_infos_view(v@)),
            Response::ClientLocked { name } => ResponseView::ClientLocked { name: name@ },
            Response::ClientSuspended { name } => ResponseView::ClientSuspended { name: name@ },
            Response::ServerLocked => ResponseView::ServerLocked,
            Response::SessionLocked { name } => ResponseView::SessionLocked { name: name@ },
            Response::MessageDisplayed { message } => ResponseView::MessageDisplayed { message: message@ },
            Response::Messages(v) => ResponseView::Messages(views_of(v@)),
            Response::OptionSet { name, value } => ResponseView::OptionSet { name: name@, value: value@ },
            Response::Options(v) => ResponseView::Options(name_values_view(v@)),
            Response::EnvironmentSet { name, value } => ResponseView::EnvironmentSet { name: name@, value: value@ },
            Response::Environment(v) => ResponseView::Environment(name_values_view(v@)),
            Response::Windows(v) => ResponseView::Windows(window_infos_view(v@)),
            Response::Panes(v) => ResponseView::Panes(pane_infos_view(v@)),
            Response::CommandAccepted { command } => ResponseView::CommandAccepted { command: command@ },
            Response::Error { message } => ResponseView::Error { message: message@ },
        }
    }
}

} // verus!
