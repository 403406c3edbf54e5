//! The server's state: sessions holding windows holding panes, the one
//! local client, options, environment and the message log, with every
//! command that reads or changes them.
use vstd::prelude::*;
use crate::layout::{
    SplitNode, WindowLayout, PresetLayout, ResizeDirection, clone_tree, leaves, tree_leaves,
    spec_split_leaf, split_of, spec_remove_leaf, spec_swap_ids, spec_assign, spec_build_preset,
    spec_resize, tree_resizable, split_leaf, remove_leaf, swap_leaf_panes, collect_leaf_ids,
    assign_leaf_ids, resize_split_for_pane, build_preset_layout, default_split_ratio,
    law_assign_leaves, law_preset_leaves, law_resize_keeps_leaves, tree_resizable_exec, max2,
};
use crate::tables::{
    strings_view, clone_strings, names_insert, names_remove, names_contains, names_add, names_drop,
    table_view, entry_named, table_lookup, table_sorted, table_insert, law_table_insert, table_set,
    table_get, clone_table, table_show, table_show_exec, log_push,
};
use crate::text::{
    first_index, lemma_first_index, lemma_first_index_is, lemma_first_index_none, str_eq, owned,
    clone_opt, opt_view, decimal, parse_unsigned, parse_u64, usize_to_string, u64_to_string,
    concat3, lit, str_lt, str_less, join_with, views_of, join_strings, lemma_str_lt_irreflexive, lemma_str_lt_transitive,
    lemma_str_lt_total,
};

verus! {

// ---------------------------------------------------------------------------
// Panes, windows, sessions and their views
// ---------------------------------------------------------------------------

/// A pane: one shell in a window.
#[derive(Debug)]
pub struct Pane {
    pub id: u64,
    pub title: String,
    pub last_input: Option<String>,
    pub last_output: Option<String>,
    pub rows: u16,
    pub cols: u16,
    pub floating: bool,
}

/// What a pane holds, with its strings as character sequences.
pub struct PaneView {
    pub id: u64,
    pub title: Seq<char>,
    pub last_input: Option<Seq<char>>,
    pub last_output: Option<Seq<char>>,
    pub rows: u16,
    pub cols: u16,
    pub floating: bool,
}

impl View for Pane {
    type V = PaneView;

    open spec fn view(&self) -> PaneView {
        PaneView {
            id: self.id,
            title: self.title@,
            last_input: self.last_input.deep_view(),
            last_output: self.last_output.deep_view(),
            rows: self.rows,
            cols: self.cols,
            floating: self.floating,
        }
    }
}

impl Clone for Pane {
    fn clone(&self) -> (r: Self)
        ensures
            r@ == self@,
    {
        Pane {
            id: self.id,
            title: self.title.clone(),
            last_input: clone_opt(&self.last_input),
            last_output: clone_opt(&self.last_output),
            rows: self.rows,
            cols: self.cols,
            floating: self.floating,
        }
    }
}

/// The views of a sequence of panes.
pub open spec fn panes_view(v: Seq<Pane>) -> Seq<PaneView> {
    v.map_values(|p: Pane| p@)
}

/// A window: panes sharing a screen, arranged by a split tree.
#[derive(Debug)]
pub struct Window {
    pub id: u64,
    pub name: String,
    pub active_pane_id: u64,
    pub last_pane_id: Option<u64>,
    pub layout: WindowLayout,
    pub layout_tree: Option<SplitNode>,
    pub current_layout: PresetLayout,
    pub panes: Vec<Pane>,
}

/// What a window holds.
pub struct WindowView {
    pub id: u64,
    pub name: Seq<char>,
    pub active_pane_id: u64,
    pub last_pane_id: Option<u64>,
    pub layout: WindowLayout,
    pub layout_tree: Option<SplitNode>,
    pub current_layout: PresetLayout,
    pub panes: Seq<PaneView>,
}

impl View for Window {
    type V = WindowView;

    open spec fn view(&self) -> WindowView {
        WindowView {
            id: self.id,
            name: self.name@,
            active_pane_id: self.active_pane_id,
            last_pane_id: self.last_pane_id,
            layout: self.layout,
            layout_tree: self.layout_tree,
            current_layout: self.current_layout,
            panes: panes_view(self.panes@),
        }
    }
}

/// A copy of a sequence of panes.
pub fn clone_panes(v: &Vec<Pane>) -> (r: Vec<Pane>)
    ensures
        panes_view(r@) == panes_view(v@),
{
    let mut r: Vec<Pane> = Vec::new();
    let mut i: usize = 0;
    while i < v.len()
        invariant
            i <= v.len(),
            r@.len() == i,
            forall|j: int| 0 <= j < i ==> (#[trigger] r@[j])@ == v@[j]@,
        decreases v.len() - i,
    {
        let c = v[i].clone();
        assert(c@ == v@[i as int]@);
        r.push(c);
        i = i + 1;
    }
    proof {
        assert(panes_view(r@) =~= panes_view(v@));
    }
    r
}

impl Clone for Window {
    fn clone(&self) -> (r: Self)
        ensures
            r@ == self@,
    {
        Window {
            id: self.id,
            name: self.name.clone(),
            active_pane_id: self.active_pane_id,
            last_pane_id: self.last_pane_id,
            layout: self.layout,
            layout_tree: clone_tree(&self.layout_tree),
            current_layout: self.current_layout,
            panes: clone_panes(&self.panes),
        }
    }
}

/// The views of a sequence of windows.
pub open spec fn windows_view(v: Seq<Window>) -> Seq<WindowView> {
    v.map_values(|w: Window| w@)
}

/// A session: a named set of windows, one of them active.
#[derive(Debug)]
pub struct Session {
    pub id: u64,
    pub name: String,
    pub active_window_id: u64,
    pub last_window_id: Option<u64>,
    pub windows: Vec<Window>,
}

/// What a session holds.
pub struct SessionView {
    pub id: u64,
    pub name: Seq<char>,
    pub active_window_id: u64,
    pub last_window_id: Option<u64>,
    pub windows: Seq<WindowView>,
}

impl View for Session {
    type V = SessionView;

    open spec fn view(&self) -> SessionView {
        SessionView {
            id: self.id,
            name: self.name@,
            active_window_id: self.active_window_id,
            last_window_id: self.last_window_id,
            windows: windows_view(self.windows@),
        }
    }
}

/// A copy of a sequence of windows.
pub fn clone_windows(v: &Vec<Window>) -> (r: Vec<Window>)
    ensures
        windows_view(r@) == windows_view(v@),
{
    let mut r: Vec<Window> = Vec::new();
    let mut i: usize = 0;
    while i < v.len()
        invariant
            i <= v.len(),
            r@.len() == i,
            forall|j: int| 0 <= j < i ==> (#[trigger] r@[j])@ == v@[j]@,
        decreases v.len() - i,
    {
        let c = v[i].clone();
        assert(c@ == v@[i as int]@);
        r.push(c);
        i = i + 1;
    }
    proof {
        assert(windows_view(r@) =~= windows_view(v@));
    }
    r
}

impl Clone for Session {
    fn clone(&self) -> (r: Self)
        ensures
            r@ == self@,
    {
        Session {
            id: self.id,
            name: self.name.clone(),
            active_window_id: self.active_window_id,
            last_window_id: self.last_window_id,
            windows: clone_windows(&self.windows),
        }
    }
}

/// The views of a sequence of sessions.
pub open spec fn sessions_view(v: Seq<Session>) -> Seq<SessionView> {
    v.map_values(|s: Session| s@)
}

/// The local client.
#[derive(Debug)]
pub struct ClientState {
    pub id: u64,
    pub name: String,
    pub attached_session: Option<String>,
    pub locked: bool,
    pub suspended: bool,
}

/// What the client holds.
pub struct ClientView {
    pub id: u64,
    pub name: Seq<char>,
    pub attached_session: Option<Seq<char>>,
    pub locked: bool,
    pub suspended: bool,
}

impl View for ClientState {
    type V = ClientView;

    open spec fn view(&self) -> ClientView {
        ClientView {
            id: self.id,
            name: self.name@,
            attached_session: self.attached_session.deep_view(),
            locked: self.locked,
            suspended: self.suspended,
        }
    }
}

// ---------------------------------------------------------------------------
// Errors
// ---------------------------------------------------------------------------

/// Why a command on the state failed.
#[derive(Debug)]
pub enum StateError {
    SessionExists(String),
    SessionNotFound(String),
    WindowNotFound(String),
    PaneNotFound(String),
    NoSessions,
    NoWindows(String),
    NoPanes(String),
    LastWindowInSession(String),
    LastPaneInWindow(String),
    NoAttachedSession,
}

/// A `StateError` with its strings as character sequences.
pub enum StateErrorView {
    SessionExists(Seq<char>),
    SessionNotFound(Seq<char>),
    WindowNotFound(Seq<char>),
    PaneNotFound(Seq<char>),
    NoSessions,
    NoWindows(Seq<char>),
    NoPanes(Seq<char>),
    LastWindowInSession(Seq<char>),
    LastPaneInWindow(Seq<char>),
    NoAttachedSession,
}

impl View for StateError {
    type V = StateErrorView;

    open spec fn view(&self) -> StateErrorView {
        match self {
            StateError::SessionExists(s) => StateErrorView::SessionExists(s@),
            StateError::SessionNotFound(s) => StateErrorView::SessionNotFound(s@),
            StateError::WindowNotFound(s) => StateErrorView::WindowNotFound(s@),
            StateError::PaneNotFound(s) => StateErrorView::PaneNotFound(s@),
            StateError::NoSessions => StateErrorView::NoSessions,
            StateError::NoWindows(s) => StateErrorView::NoWindows(s@),
            StateError::NoPanes(s) => StateErrorView::NoPanes(s@),
            StateError::LastWindowInSession(s) => StateErrorView::LastWindowInSession(s@),
            StateError::LastPaneInWindow(s) => StateErrorView::LastPaneInWindow(s@),
            StateError::NoAttachedSession => StateErrorView::NoAttachedSession,
        }
    }
}

/// The message that describes an error.
pub open spec fn error_text(e: StateErrorView) -> Seq<char> {
    match e {
        StateErrorView::SessionExists(s) => "session '"@ + s + "' already exists"@,
        StateErrorView::SessionNotFound(s) => "session '"@ + s + "' not found"@,
        StateErrorView::WindowNotFound(s) => "window target '"@ + s + "' not found"@,
        StateErrorView::PaneNotFound(s) => "pane target '"@ + s + "' not found"@,
        StateErrorView::NoSessions => "no sessions exist"@,
        StateErrorView::NoWindows(s) => "session '"@ + s + "' has no windows"@,
        StateErrorView::NoPanes(s) => "window '"@ + s + "' has no panes"@,
        StateErrorView::LastWindowInSession(s) => "cannot kill the last window in session '"@ + s
            + "'"@,
        StateErrorView::LastPaneInWindow(s) => "cannot kill the last pane in window '"@ + s + "'"@,
        StateErrorView::NoAttachedSession => "no attached session"@,
    }
}

impl StateError {
    /// The message that describes the error.
    pub fn message(&self) -> (r: String)
        ensures
            r@ == error_text(self@),
    {
        match self {
            StateError::SessionExists(s) => concat3("session '", s.as_str(), "' already exists"),
            StateError::SessionNotFound(s) => concat3("session '", s.as_str(), "' not found"),
            StateError::WindowNotFound(s) => concat3("window target '", s.as_str(), "' not found"),
            StateError::PaneNotFound(s) => concat3("pane target '", s.as_str(), "' not found"),
            StateError::NoSessions => lit("no sessions exist"),
            StateError::NoWindows(s) => concat3("session '", s.as_str(), "' has no windows"),
            StateError::NoPanes(s) => concat3("window '", s.as_str(), "' has no panes"),
            StateError::LastWindowInSession(s) => concat3(
                "cannot kill the last window in session '",
                s.as_str(),
                "'",
            ),
            StateError::LastPaneInWindow(s) => concat3(
                "cannot kill the last pane in window '",
                s.as_str(),
                "'",
            ),
            StateError::NoAttachedSession => lit("no attached session"),
        }
    }
}

/// The view of a result whose error is a `StateError`.
pub open spec fn res<T: View>(r: Result<T, StateError>) -> Result<T::V, StateErrorView> {
    match r {
        Ok(t) => Ok(t@),
        Err(e) => Err(e@),
    }
}

/// The view of an index found, or of the error met looking for it.
pub open spec fn index_res(r: Result<usize, StateError>) -> Result<int, StateErrorView> {
    match r {
        Ok(i) => Ok(i as int),
        Err(e) => Err(e@),
    }
}

// ---------------------------------------------------------------------------
// Records handed to callers
// ---------------------------------------------------------------------------

/// One line of `list-windows`.
#[derive(Debug)]
pub struct WindowRecord {
    pub session_id: u64,
    pub session_name: String,
    pub window_id: u64,
    pub window_name: String,
    pub pane_count: usize,
    pub active: bool,
    pub layout: WindowLayout,
    pub layout_tree: Option<SplitNode>,
}

/// What a `WindowRecord` holds.
pub struct WindowRecordView {
    pub session_id: u64,
    pub session_name: Seq<char>,
    pub window_id: u64,
    pub window_name: Seq<char>,
    pub pane_count: usize,
    pub active: bool,
    pub layout: WindowLayout,
    pub layout_tree: Option<SplitNode>,
}

impl View for WindowRecord {
    type V = WindowRecordView;

    open spec fn view(&self) -> WindowRecordView {
        WindowRecordView {
            session_id: self.session_id,
            session_name: self.session_name@,
            window_id: self.window_id,
            window_name: self.window_name@,
            pane_count: self.pane_count,
            active: self.active,
            layout: self.layout,
            layout_tree: self.layout_tree,
        }
    }
}

/// One line of `list-panes`.
#[derive(Debug)]
pub struct PaneRecord {
    pub session_id: u64,
    pub session_name: String,
    pub window_id: u64,
    pub window_name: String,
    pub pane_id: u64,
    pub pane_title: String,
    pub active: bool,
    pub last_input: Option<String>,
    pub last_output: Option<String>,
    pub rows: u16,
    pub cols: u16,
    pub floating: bool,
}

/// What a `PaneRecord` holds.
pub struct PaneRecordView {
    pub session_id: u64,
    pub session_name: Seq<char>,
    pub window_id: u64,
    pub window_name: Seq<char>,
    pub pane_id: u64,
    pub pane_title: Seq<char>,
    pub active: bool,
    pub last_input: Option<Seq<char>>,
    pub last_output: Option<Seq<char>>,
    pub rows: u16,
    pub cols: u16,
    pub floating: bool,
}

impl View for PaneRecord {
    type V = PaneRecordView;

    open spec fn view(&self) -> PaneRecordView {
        PaneRecordView {
            session_id: self.session_id,
            session_name: self.session_name@,
            window_id: self.window_id,
            window_name: self.window_name@,
            pane_id: self.pane_id,
            pane_title: self.pane_title@,
            active: self.active,
            last_input: self.last_input.deep_view(),
            last_output: self.last_output.deep_view(),
            rows: self.rows,
            cols: self.cols,
            floating: self.floating,
        }
    }
}

/// One line of `list-clients`.
#[derive(Debug)]
pub struct ClientRecord {
    pub id: u64,
    pub name: String,
    pub attached_session: Option<String>,
    pub locked: bool,
    pub suspended: bool,
    pub server_locked: bool,
}

/// What a `ClientRecord` holds.
pub struct ClientRecordView {
    pub id: u64,
    pub name: Seq<char>,
    pub attached_session: Option<Seq<char>>,
    pub locked: bool,
    pub suspended: bool,
    pub server_locked: bool,
}

impl View for ClientRecord {
    type V = ClientRecordView;

    open spec fn view(&self) -> ClientRecordView {
        ClientRecordView {
            id: self.id,
            name: self.name@,
            attached_session: self.attached_session.deep_view(),
            locked: self.locked,
            suspended: self.suspended,
            server_locked: self.server_locked,
        }
    }
}

// ---------------------------------------------------------------------------
// Selecting sessions, windows and panes
// ---------------------------------------------------------------------------

/// The predicate "the session is named `name`".
pub open spec fn session_named(name: Seq<char>) -> spec_fn(SessionView) -> bool {
    |s: SessionView| s.name == name
}

/// The predicate "the window is named `name`".
pub open spec fn window_named(name: Seq<char>) -> spec_fn(WindowView) -> bool {
    |w: WindowView| w.name == name
}

/// The predicate "the window has the id `id`".
pub open spec fn window_with_id(id: u64) -> spec_fn(WindowView) -> bool {
    |w: WindowView| w.id == id
}

/// The predicate "the pane is titled `title`".
pub open spec fn pane_titled(title: Seq<char>) -> spec_fn(PaneView) -> bool {
    |p: PaneView| p.title == title
}

/// The predicate "the pane has the id `id`".
pub open spec fn pane_with_id(id: u64) -> spec_fn(PaneView) -> bool {
    |p: PaneView| p.id == id
}

/// The session a command targets: the first one named `name`, or the first
/// session when no name is given.
pub open spec fn sel_session(sessions: Seq<SessionView>, name: Option<Seq<char>>) -> Result<
    int,
    StateErrorView,
> {
    match name {
        Some(n) => match first_index(sessions, session_named(n)) {
            Some(i) => Ok(i),
            None => Err(StateErrorView::SessionNotFound(n)),
        },
        None => if sessions.len() == 0 {
            Err(StateErrorView::NoSessions)
        } else {
            Ok(0)
        },
    }
}

/// The window a selector picks in a session: the first window with that
/// name; else, when the selector is a number, the first window with that
/// id, or else the window at that index.  Without a selector: the active
/// window when `default_active` (and it exists), else the first window.
pub open spec fn sel_window(s: SessionView, selector: Option<Seq<char>>, default_active: bool) -> Result<
    int,
    StateErrorView,
> {
    if s.windows.len() == 0 {
        Err(StateErrorView::NoWindows(s.name))
    } else {
        match selector {
            Some(sel) => match first_index(s.windows, window_named(sel)) {
                Some(i) => Ok(i),
                None => match parse_unsigned(sel, u64::MAX as nat) {
                    Some(id) => match first_index(s.windows, window_with_id(id as u64)) {
                        Some(i) => Ok(i),
                        None => if id < s.windows.len() {
                            Ok(id as int)
                        } else {
                            Err(StateErrorView::WindowNotFound(sel))
                        },
                    },
                    None => Err(StateErrorView::WindowNotFound(sel)),
                },
            },
            None => if default_active {
                match first_index(s.windows, window_with_id(s.active_window_id)) {
                    Some(i) => Ok(i),
                    None => Ok(0),
                }
            } else {
                Ok(0)
            },
        }
    }
}

/// The pane a selector picks in a window, as `sel_window` does with titles
/// in place of names.
pub open spec fn sel_pane(w: WindowView, selector: Option<Seq<char>>, default_active: bool) -> Result<
    int,
    StateErrorView,
> {
    if w.panes.len() == 0 {
        Err(StateErrorView::NoPanes(w.name))
    } else {
        match selector {
            Some(sel) => match first_index(w.panes, pane_titled(sel)) {
                Some(i) => Ok(i),
                None => match parse_unsigned(sel, u64::MAX as nat) {
                    Some(id) => match first_index(w.panes, pane_with_id(id as u64)) {
                        Some(i) => Ok(i),
                        None => if id < w.panes.len() {
                            Ok(id as int)
                        } else {
                            Err(StateErrorView::PaneNotFound(sel))
                        },
                    },
                    None => Err(StateErrorView::PaneNotFound(sel)),
                },
            },
            None => if default_active {
                match first_index(w.panes, pane_with_id(w.active_pane_id)) {
                    Some(i) => Ok(i),
                    None => Ok(0),
                }
            } else {
                Ok(0)
            },
        }
    }
}

/// A found index lies within the sequence searched.
pub proof fn lemma_sel_bounds(s: SessionView, selector: Option<Seq<char>>, default_active: bool)
    ensures
        sel_window(s, selector, default_active) matches Ok(i) ==> 0 <= i < s.windows.len(),
{
    lemma_first_index(s.windows, window_with_id(s.active_window_id));
    if let Some(sel) = selector {
        lemma_first_index(s.windows, window_named(sel));
        if let Some(id) = parse_unsigned(sel, u64::MAX as nat) {
            lemma_first_index(s.windows, window_with_id(id as u64));
        }
    }
}

/// A found pane index lies within the window's panes.
pub proof fn lemma_sel_pane_bounds(w: WindowView, selector: Option<Seq<char>>, default_active: bool)
    ensures
        sel_pane(w, selector, default_active) matches Ok(i) ==> 0 <= i < w.panes.len(),
{
    lemma_first_index(w.panes, pane_with_id(w.active_pane_id));
    if let Some(sel) = selector {
        lemma_first_index(w.panes, pane_titled(sel));
        if let Some(id) = parse_unsigned(sel, u64::MAX as nat) {
            lemma_first_index(w.panes, pane_with_id(id as u64));
        }
    }
}

/// A found session index lies within the sessions.
pub proof fn lemma_sel_session_bounds(sessions: Seq<SessionView>, name: Option<Seq<char>>)
    ensures
        sel_session(sessions, name) matches Ok(i) ==> 0 <= i < sessions.len(),
{
    if let Some(n) = name {
        lemma_first_index(sessions, session_named(n));
    }
}

fn position_session_named(sessions: &Vec<Session>, name: &str) -> (r: Option<usize>)
    ensures
        r matches Some(i) ==> first_index(sessions_view(sessions@), session_named(name@)) == Some(
            i as int,
        ),
        r is None ==> first_index(sessions_view(sessions@), session_named(name@)) is None,
{
    let ghost sv = sessions_view(sessions@);
    let mut i: usize = 0;
    while i < sessions.len()
        invariant
            i <= sessions.len(),
            sv == sessions_view(sessions@),
            forall|j: int| 0 <= j < i ==> !session_named(name@)(#[trigger] sv[j]),
        decreases sessions.len() - i,
    {
        if str_eq(sessions[i].name.as_str(), name) {
            proof {
                lemma_first_index_is(sv, session_named(name@), i as int);
            }
            return Some(i);
        }
        i = i + 1;
    }
    proof {
        lemma_first_index_none(sv, session_named(name@));
    }
    None
}

fn position_window_named(windows: &Vec<Window>, name: &str) -> (r: Option<usize>)
    ensures
        r matches Some(i) ==> first_index(windows_view(windows@), window_named(name@)) == Some(
            i as int,
        ),
        r is None ==> first_index(windows_view(windows@), window_named(name@)) is None,
{
    let ghost wv = windows_view(windows@);
    let mut i: usize = 0;
    while i < windows.len()
        invariant
            i <= windows.len(),
            wv == windows_view(windows@),
            forall|j: int| 0 <= j < i ==> !window_named(name@)(#[trigger] wv[j]),
        decreases windows.len() - i,
    {
        if str_eq(windows[i].name.as_str(), name) {
            proof {
                lemma_first_index_is(wv, window_named(name@), i as int);
            }
            return Some(i);
        }
        i = i + 1;
    }
    proof {
        lemma_first_index_none(wv, window_named(name@));
    }
    None
}

fn position_window_id(windows: &Vec<Window>, id: u64) -> (r: Option<usize>)
    ensures
        r matches Some(i) ==> first_index(windows_view(windows@), window_with_id(id)) == Some(i as int),
        r is None ==> first_index(windows_view(windows@), window_with_id(id)) is None,
{
    let ghost wv = windows_view(windows@);
    let mut i: usize = 0;
    while i < windows.len()
        invariant
            i <= windows.len(),
            wv == windows_view(windows@),
            forall|j: int| 0 <= j < i ==> !window_with_id(id)(#[trigger] wv[j]),
        decreases windows.len() - i,
    {
        if windows[i].id == id {
            proof {
                lemma_first_index_is(wv, window_with_id(id), i as int);
            }
            return Some(i);
        }
        i = i + 1;
    }
    proof {
        lemma_first_index_none(wv, window_with_id(id));
    }
    None
}

fn position_pane_titled(panes: &Vec<Pane>, title: &str) -> (r: Option<usize>)
    ensures
        r matches Some(i) ==> first_index(panes_view(panes@), pane_titled(title@)) == Some(i as int),
        r is None ==> first_index(panes_view(panes@), pane_titled(title@)) is None,
{
    let ghost pv = panes_view(panes@);
    let mut i: usize = 0;
    while i < panes.len()
        invariant
            i <= panes.len(),
            pv == panes_view(panes@),
            forall|j: int| 0 <= j < i ==> !pane_titled(title@)(#[trigger] pv[j]),
        decreases panes.len() - i,
    {
        if str_eq(panes[i].title.as_str(), title) {
            proof {
                lemma_first_index_is(pv, pane_titled(title@), i as int);
            }
            return Some(i);
        }
        i = i + 1;
    }
    proof {
        lemma_first_index_none(pv, pane_titled(title@));
    }
    None
}

fn position_pane_id(panes: &Vec<Pane>, id: u64) -> (r: Option<usize>)
    ensures
        r matches Some(i) ==> first_index(panes_view(panes@), pane_with_id(id)) == Some(i as int),
        r is None ==> first_index(panes_view(panes@), pane_with_id(id)) is None,
{
    let ghost pv = panes_view(panes@);
    let mut i: usize = 0;
    while i < panes.len()
        invariant
            i <= panes.len(),
            pv == panes_view(panes@),
            forall|j: int| 0 <= j < i ==> !pane_with_id(id)(#[trigger] pv[j]),
        decreases panes.len() - i,
    {
        if panes[i].id == id {
            proof {
                lemma_first_index_is(pv, pane_with_id(id), i as int);
            }
            return Some(i);
        }
        i = i + 1;
    }
    proof {
        lemma_first_index_none(pv, pane_with_id(id));
    }
    None
}

/// The window that `window_selector` picks in `session`.
pub fn find_window_index_in_session(
    session: &Session,
    window_selector: Option<&str>,
    default_active: bool,
) -> (r: Result<usize, StateError>)
    ensures
        index_res(r) == sel_window(session@, opt_view(window_selector), default_active),
        r matches Ok(i) ==> i < session.windows.len(),
{
    proof {
        lemma_sel_bounds(session@, opt_view(window_selector), default_active);
    }
    if session.windows.len() == 0 {
        return Err(StateError::NoWindows(session.name.clone()));
    }
    if let Some(selector) = window_selector {
        if let Some(index) = position_window_named(&session.windows, selector) {
            return Ok(index);
        }
        if let Some(window_id) = parse_u64(selector) {
            if let Some(index) = position_window_id(&session.windows, window_id) {
                return Ok(index);
            }
            if window_id < session.windows.len() as u64 {
                return Ok(window_id as usize);
            }
        }
        return Err(StateError::WindowNotFound(owned(selector)));
    }
    if default_active {
        if let Some(index) = position_window_id(&session.windows, session.active_window_id) {
            return Ok(index);
        }
    }
    Ok(0)
}

/// The pane that `pane_selector` picks in `window`.
pub fn find_pane_index_in_window(
    window: &Window,
    pane_selector: Option<&str>,
    default_active: bool,
) -> (r: Result<usize, StateError>)
    ensures
        index_res(r) == sel_pane(window@, opt_view(pane_selector), default_active),
        r matches Ok(i) ==> i < window.panes.len(),
{
    proof {
        lemma_sel_pane_bounds(window@, opt_view(pane_selector), default_active);
    }
    if window.panes.len() == 0 {
        return Err(StateError::NoPanes(window.name.clone()));
    }
    if let Some(selector) = pane_selector {
        if let Some(index) = position_pane_titled(&window.panes, selector) {
            return Ok(index);
        }
        if let Some(pane_id) = parse_u64(selector) {
            if let Some(index) = position_pane_id(&window.panes, pane_id) {
                return Ok(index);
            }
            if pane_id < window.panes.len() as u64 {
                return Ok(pane_id as usize);
            }
        }
        return Err(StateError::PaneNotFound(owned(selector)));
    }
    if default_active {
        if let Some(index) = position_pane_id(&window.panes, window.active_pane_id) {
            return Ok(index);
        }
    }
    Ok(0)
}

/// A session whose active window becomes `id`, remembering the window it
/// leaves.
pub open spec fn activate_window(s: SessionView, id: u64) -> SessionView {
    SessionView {
        last_window_id: if s.active_window_id != id {
            Some(s.active_window_id)
        } else {
            s.last_window_id
        },
        active_window_id: id,
        ..s
    }
}

/// A window whose active pane becomes `id`, remembering the pane it leaves.
pub open spec fn activate_pane(w: WindowView, id: u64) -> WindowView {
    WindowView {
        last_pane_id: if w.active_pane_id != id {
            Some(w.active_pane_id)
        } else {
            w.last_pane_id
        },
        active_pane_id: id,
        ..w
    }
}

/// Makes `new_window_id` the session's active window.
pub fn set_active_window(session: &mut Session, new_window_id: u64)
    ensures
        final(session)@ == activate_window(old(session)@, new_window_id),
{
    if session.active_window_id != new_window_id {
        session.last_window_id = Some(session.active_window_id);
    }
    session.active_window_id = new_window_id;
}

/// Makes `new_pane_id` the window's active pane.
pub fn set_active_pane(window: &mut Window, new_pane_id: u64)
    ensures
        final(window)@ == activate_pane(old(window)@, new_pane_id),
{
    if window.active_pane_id != new_pane_id {
        window.last_pane_id = Some(window.active_pane_id);
    }
    window.active_pane_id = new_pane_id;
}

/// Selecting a window and then the last window returns to the window that
/// was active before.
pub proof fn law_last_window_returns(s: SessionView, id: u64)
    requires
        s.active_window_id != id,
    ensures
        ({
            let t = activate_window(s, id);
            let back = match t.last_window_id {
                Some(w) => w,
                None => t.active_window_id,
            };
            back == s.active_window_id && activate_window(t, back).last_window_id == Some(id)
        }),
{
}

// ---------------------------------------------------------------------------
// The server state
// ---------------------------------------------------------------------------

/// Everything the server knows: the sessions, the local client, locks,
/// options, environment and the message log, and the next ids to hand out.
#[derive(Debug)]
pub struct ServerState {
    pub next_session_id: u64,
    pub next_window_id: u64,
    pub next_pane_id: u64,
    pub attached_session: Option<String>,
    pub client: ClientState,
    pub server_locked: bool,
    pub locked_sessions: Vec<String>,
    pub options: Vec<(String, String)>,
    pub environment: Vec<(String, String)>,
    pub message_log: Vec<String>,
    pub sessions: Vec<Session>,
}

/// What the server state holds.
pub struct StateView {
    pub next_session_id: u64,
    pub next_window_id: u64,
    pub next_pane_id: u64,
    pub attached_session: Option<Seq<char>>,
    pub client: ClientView,
    pub server_locked: bool,
    pub locked_sessions: Seq<Seq<char>>,
    pub options: Seq<(Seq<char>, Seq<char>)>,
    pub environment: Seq<(Seq<char>, Seq<char>)>,
    pub message_log: Seq<Seq<char>>,
    pub sessions: Seq<SessionView>,
}

impl View for ServerState {
    type V = StateView;

    closed spec fn view(&self) -> StateView {
        StateView {
            next_session_id: self.next_session_id,
            next_window_id: self.next_window_id,
            next_pane_id: self.next_pane_id,
            attached_session: self.attached_session.deep_view(),
            client: self.client@,
            server_locked: self.server_locked,
            locked_sessions: strings_view(self.locked_sessions@),
            options: table_view(self.options@),
            environment: table_view(self.environment@),
            message_log: strings_view(self.message_log@),
            sessions: sessions_view(self.sessions@),
        }
    }
}

/// The state with session `i` replaced.
pub open spec fn with_session(s: StateView, i: int, sv: SessionView) -> StateView {
    StateView { sessions: s.sessions.update(i, sv), ..s }
}

/// The session with window `j` replaced.
pub open spec fn with_window(sv: SessionView, j: int, w: WindowView) -> SessionView {
    SessionView { windows: sv.windows.update(j, w), ..sv }
}

/// The window with pane `k` replaced.
pub open spec fn with_pane(w: WindowView, k: int, p: PaneView) -> WindowView {
    WindowView { panes: w.panes.update(k, p), ..w }
}

/// A new pane.
pub open spec fn fresh_pane(id: u64, title: Seq<char>) -> PaneView {
    PaneView {
        id,
        title,
        last_input: None,
        last_output: None,
        rows: 0,
        cols: 0,
        floating: false,
    }
}

/// A new window holding the one pane `pane`.
pub open spec fn fresh_window(id: u64, name: Seq<char>, pane: PaneView) -> WindowView {
    WindowView {
        id,
        name,
        active_pane_id: pane.id,
        last_pane_id: None,
        layout: WindowLayout::Horizontal,
        layout_tree: Some(SplitNode::Leaf { pane_id: pane.id }),
        current_layout: PresetLayout::EvenHorizontal,
        panes: seq![pane],
    }
}

/// The state of a server that has just started.
pub open spec fn initial_state() -> StateView {
    StateView {
        next_session_id: 1,
        next_window_id: 1,
        next_pane_id: 1,
        attached_session: None,
        client: ClientView {
            id: 1,
            name: "local-client"@,
            attached_session: None,
            locked: false,
            suspended: false,
        },
        server_locked: false,
        locked_sessions: seq![],
        options: seq![],
        environment: seq![],
        message_log: seq![],
        sessions: seq![],
    }
}

/// Whether ids are left to hand out for new sessions, windows and panes.
pub open spec fn ids_left(s: StateView) -> bool {
    s.next_session_id < u64::MAX && s.next_window_id < u64::MAX && s.next_pane_id < u64::MAX
}

/// `create_session`: a session with one window holding one shell pane; the
/// client attaches to it when attached to nothing.
pub open spec fn spec_create_session(s: StateView, name: Seq<char>) -> (StateView, Result<
    SessionView,
    StateErrorView,
>) {
    if first_index(s.sessions, session_named(name)) is Some {
        (s, Err(StateErrorView::SessionExists(name)))
    } else {
        let pane = fresh_pane(s.next_pane_id, "shell"@);
        let window = fresh_window(s.next_window_id, "0"@, pane);
        let session = SessionView {
            id: s.next_session_id,
            name,
            active_window_id: window.id,
            last_window_id: None,
            windows: seq![window],
        };
        let attach = s.attached_session is None;
        (
            StateView {
                next_pane_id: (s.next_pane_id + 1) as u64,
                next_window_id: (s.next_window_id + 1) as u64,
                next_session_id: (s.next_session_id + 1) as u64,
                sessions: s.sessions.push(session),
                attached_session: if attach {
                    Some(name)
                } else {
                    s.attached_session
                },
                client: if attach {
                    ClientView { attached_session: Some(name), ..s.client }
                } else {
                    s.client
                },
                ..s
            },
            Ok(session),
        )
    }
}

/// `attach_session`: the client attaches to the session.
pub open spec fn spec_attach_session(s: StateView, name: Option<Seq<char>>) -> (StateView, Result<
    SessionView,
    StateErrorView,
>) {
    match sel_session(s.sessions, name) {
        Err(e) => (s, Err(e)),
        Ok(i) => {
            let sv = s.sessions[i];
            (
                StateView {
                    attached_session: Some(sv.name),
                    client: ClientView { attached_session: Some(sv.name), ..s.client },
                    ..s
                },
                Ok(sv),
            )
        },
    }
}

/// `detach_client`: with a session named, the client detaches from it if
/// attached to it; without one, from whatever session it is attached to.
pub open spec fn spec_detach_client(s: StateView, name: Option<Seq<char>>) -> (StateView, Result<
    Seq<char>,
    StateErrorView,
>) {
    let detached = StateView {
        attached_session: None,
        client: ClientView { attached_session: None, ..s.client },
        ..s
    };
    match name {
        Some(target) => match sel_session(s.sessions, Some(target)) {
            Err(e) => (s, Err(e)),
            Ok(_) => if s.attached_session == Some(target) {
                (detached, Ok(target))
            } else {
                (s, Err(StateErrorView::NoAttachedSession))
            },
        },
        None => match s.attached_session {
            Some(n) => (detached, Ok(n)),
            None => (s, Err(StateErrorView::NoAttachedSession)),
        },
    }
}

/// The record that describes the client.
/// Locking a session: the selected session's name joins the locked names.
pub open spec fn spec_lock_session(s: StateView, name: Option<Seq<char>>) -> (StateView, Result<
    Seq<char>,
    StateErrorView,
>) {
    match sel_session(s.sessions, name) {
        Err(e) => (s, Err(e)),
        Ok(i) => {
            let n = s.sessions[i].name;
            (StateView { locked_sessions: names_insert(s.locked_sessions, n), ..s }, Ok(n))
        },
    }
}

pub open spec fn client_record(s: StateView) -> ClientRecordView {
    ClientRecordView {
        id: s.client.id,
        name: s.client.name,
        attached_session: s.client.attached_session,
        locked: s.client.locked,
        suspended: s.client.suspended,
        server_locked: s.server_locked,
    }
}

/// `kill_session`: the session named `name` goes; when the client was
/// attached to it, it attaches to the first remaining session, if any.
pub open spec fn spec_kill_session(s: StateView, name: Seq<char>) -> (StateView, Result<
    SessionView,
    StateErrorView,
>) {
    match first_index(s.sessions, session_named(name)) {
        None => (s, Err(StateErrorView::SessionNotFound(name))),
        Some(i) => {
            let removed = s.sessions[i];
            let rest = s.sessions.remove(i);
            let reattach = s.attached_session == Some(removed.name);
            let attached = if reattach {
                if rest.len() > 0 {
                    Some(rest[0].name)
                } else {
                    None
                }
            } else {
                s.attached_session
            };
            (
                StateView {
                    sessions: rest,
                    attached_session: attached,
                    client: if reattach {
                        ClientView { attached_session: attached, ..s.client }
                    } else {
                        s.client
                    },
                    locked_sessions: names_remove(s.locked_sessions, removed.name),
                    ..s
                },
                Ok(removed),
            )
        },
    }
}

/// `kill_server`: every session, lock, option, variable and message goes.
pub open spec fn spec_kill_server(s: StateView) -> StateView {
    StateView {
        sessions: seq![],
        attached_session: None,
        client: ClientView { attached_session: None, locked: false, suspended: false, ..s.client },
        locked_sessions: seq![],
        server_locked: false,
        options: seq![],
        environment: seq![],
        message_log: seq![],
        ..s
    }
}

/// `rename_session`: fails when a session already has the new name;
/// otherwise the session, the client's attachment and the session's lock
/// follow the new name.
pub open spec fn spec_rename_session(s: StateView, old_name: Seq<char>, new_name: Seq<char>) -> (
    StateView,
    Result<SessionView, StateErrorView>,
) {
    if first_index(s.sessions, session_named(new_name)) is Some {
        (s, Err(StateErrorView::SessionExists(new_name)))
    } else {
        match sel_session(s.sessions, Some(old_name)) {
            Err(e) => (s, Err(e)),
            Ok(i) => {
                let sv = SessionView { name: new_name, ..s.sessions[i] };
                let reattach = s.attached_session == Some(old_name);
                (
                    StateView {
                        sessions: s.sessions.update(i, sv),
                        attached_session: if reattach {
                            Some(new_name)
                        } else {
                            s.attached_session
                        },
                        client: if reattach {
                            ClientView { attached_session: Some(new_name), ..s.client }
                        } else {
                            s.client
                        },
                        locked_sessions: if s.locked_sessions.contains(old_name) {
                            names_insert(names_remove(s.locked_sessions, old_name), new_name)
                        } else {
                            s.locked_sessions
                        },
                        ..s
                    },
                    Ok(sv),
                )
            },
        }
    }
}

/// The ids of the panes of some windows, window after window.
pub open spec fn windows_pane_ids(ws: Seq<WindowView>) -> Seq<u64>
    decreases ws.len(),
{
    if ws.len() == 0 {
        seq![]
    } else {
        windows_pane_ids(ws.drop_last()) + ws.last().panes.map_values(|p: PaneView| p.id)
    }
}

/// The ids of the panes of some sessions, session after session.
pub open spec fn sessions_pane_ids(ss: Seq<SessionView>) -> Seq<u64>
    decreases ss.len(),
{
    if ss.len() == 0 {
        seq![]
    } else {
        sessions_pane_ids(ss.drop_last()) + windows_pane_ids(ss.last().windows)
    }
}

impl ServerState {
    /// Whether ids are left for new sessions, windows and panes.
    pub fn ids_available(&self) -> (r: bool)
        ensures
            r == ids_left(self@),
    {
        self.next_session_id < u64::MAX && self.next_window_id < u64::MAX && self.next_pane_id
            < u64::MAX
    }

    /// The ids of all panes, session after session, window after window.
    pub fn pane_ids(&self) -> (r: Vec<u64>)
        ensures
            r@ == sessions_pane_ids(self@.sessions),
    {
        let mut out: Vec<u64> = Vec::new();
        let ghost ss = self@.sessions;
        let mut i: usize = 0;
        while i < self.sessions.len()
            invariant
                i <= self.sessions.len(),
                ss == self@.sessions,
                out@ == sessions_pane_ids(ss.take(i as int)),
            decreases self.sessions.len() - i,
        {
            let ghost ws = ss[i as int].windows;
            let ghost before = out@;
            let mut j: usize = 0;
            while j < self.sessions[i].windows.len()
                invariant
                    i < self.sessions.len(),
                    j <= self.sessions[i as int].windows.len(),
                    ws == self@.sessions[i as int].windows,
                    out@ == before + windows_pane_ids(ws.take(j as int)),
                decreases self.sessions[i as int].windows.len() - j,
            {
                let ghost ps = ws[j as int].panes;
                let ghost mid = out@;
                let mut k: usize = 0;
                while k < self.sessions[i].windows[j].panes.len()
                    invariant
                        i < self.sessions.len(),
                        j < self.sessions[i as int].windows.len(),
                        k <= self.sessions[i as int].windows[j as int].panes.len(),
                        ps == ws[j as int].panes,
                        ws == self@.sessions[i as int].windows,
                        out@ == mid + ps.take(k as int).map_values(|p: PaneView| p.id),
                    decreases self.sessions[i as int].windows[j as int].panes.len() - k,
                {
                    out.push(self.sessions[i].windows[j].panes[k].id);
                    proof {
                        assert(ps[k as int].id == self.sessions[i as int].windows[j as int].panes[k as int].id);
                        assert(out@ =~= mid + ps.take(k + 1).map_values(|p: PaneView| p.id));
                    }
                    k = k + 1;
                }
                proof {
                    assert(ps.take(k as int) =~= ps);
                    assert(ws.take(j + 1).drop_last() =~= ws.take(j as int));
                    assert(out@ =~= before + windows_pane_ids(ws.take(j + 1)));
                }
                j = j + 1;
            }
            proof {
                assert(ws.take(j as int) =~= ws);
                assert(ss.take(i + 1).drop_last() =~= ss.take(i as int));
                assert(out@ =~= sessions_pane_ids(ss.take(i + 1)));
            }
            i = i + 1;
        }
        proof {
            assert(ss.take(i as int) =~= ss);
        }
        out
    }

    /// A server with no sessions, attached to nothing.
    pub fn new() -> (r: Self)
        ensures
            r@ == initial_state(),
    {
        let r = ServerState {
            next_session_id: 1,
            next_window_id: 1,
            next_pane_id: 1,
            attached_session: None,
            client: ClientState {
                id: 1,
                name: lit("local-client"),
                attached_session: None,
                locked: false,
                suspended: false,
            },
            server_locked: false,
            locked_sessions: Vec::new(),
            options: Vec::new(),
            environment: Vec::new(),
            message_log: Vec::new(),
            sessions: Vec::new(),
        };
        proof {
            assert(r@.locked_sessions =~= Seq::<Seq<char>>::empty());
            assert(r@.options =~= Seq::<(Seq<char>, Seq<char>)>::empty());
            assert(r@.environment =~= Seq::<(Seq<char>, Seq<char>)>::empty());
            assert(r@.message_log =~= Seq::<Seq<char>>::empty());
            assert(r@.sessions =~= Seq::<SessionView>::empty());
        }
        r
    }

    fn find_session_index(&self, session_name: Option<&str>) -> (r: Result<usize, StateError>)
        ensures
            index_res(r) == sel_session(self@.sessions, opt_view(session_name)),
            r matches Ok(i) ==> i < self.sessions.len(),
    {
        proof {
            lemma_sel_session_bounds(self@.sessions, opt_view(session_name));
        }
        match session_name {
            Some(name) => match position_session_named(&self.sessions, name) {
                Some(i) => Ok(i),
                None => Err(StateError::SessionNotFound(owned(name))),
            },
            None => {
                if self.sessions.len() == 0 {
                    Err(StateError::NoSessions)
                } else {
                    Ok(0)
                }
            },
        }
    }

    /// Creates a session named `name` with one window holding one pane.
    pub fn create_session(&mut self, name: String) -> (r: Result<Session, StateError>)
        requires
            ids_left(old(self)@),
        ensures
            (final(self)@, res(r)) == spec_create_session(old(self)@, name@),
    {
        if position_session_named(&self.sessions, name.as_str()).is_some() {
            return Err(StateError::SessionExists(name));
        }
        let pane = Pane {
            id: self.next_pane_id,
            title: lit("shell"),
            last_input: None,
            last_output: None,
            rows: 0,
            cols: 0,
            floating: false,
        };
        self.next_pane_id = self.next_pane_id + 1;
        let pane_id = pane.id;
        let window = Window {
            id: self.next_window_id,
            name: lit("0"),
            active_pane_id: pane_id,
            last_pane_id: None,
            layout: WindowLayout::Horizontal,
            layout_tree: Some(SplitNode::Leaf { pane_id }),
            current_layout: PresetLayout::EvenHorizontal,
            panes: vec![pane],
        };
        self.next_window_id = self.next_window_id + 1;
        let window_id = window.id;
        let session = Session {
            id: self.next_session_id,
            name,
            active_window_id: window_id,
            last_window_id: None,
            windows: vec![window],
        };
        self.next_session_id = self.next_session_id + 1;
        proof {
            assert(session@.windows =~= seq![session.windows@[0]@]);
            assert(session.windows@[0]@.panes =~= seq![session.windows@[0].panes@[0]@]);
        }
        self.sessions.push(session.clone());
        if self.attached_session.is_none() {
            self.attached_session = Some(session.name.clone());
            self.client.attached_session = Some(session.name.clone());
        }
        proof {
            assert(self@.sessions =~= old(self)@.sessions.push(session@));
        }
        Ok(session)
    }

    /// Attaches the client to a session (the first one when none is named).
    pub fn attach_session(&mut self, session_name: Option<&str>) -> (r: Result<Session, StateError>)
        ensures
            (final(self)@, res(r)) == spec_attach_session(old(self)@, opt_view(session_name)),
    {
        let session_index = self.find_session_index(session_name)?;
        let session = self.sessions[session_index].clone();
        self.attached_session = Some(session.name.clone());
        self.client.attached_session = Some(session.name.clone());
        Ok(session)
    }

    /// Attaches the client to a session, reporting the session it leaves.
    pub fn switch_client(&mut self, session_name: Option<&str>) -> (r: Result<
        (Option<String>, Session),
        StateError,
    >)
        ensures
            ({
                let (s2, a) = spec_attach_session(old(self)@, opt_view(session_name));
                &&& final(self)@ == s2
                &&& match (r, a) {
                    (Ok((prev, sess)), Ok(sv)) => prev.deep_view() == old(self)@.attached_session
                        && sess@ == sv,
                    (Err(e), Err(ev)) => e@ == ev,
                    _ => false,
                }
            }),
    {
        let previous = clone_opt(&self.attached_session);
        let session = self.attach_session(session_name)?;
        Ok((previous, session))
    }

    /// Detaches the client from a session.
    pub fn detach_client(&mut self, session_name: Option<&str>) -> (r: Result<String, StateError>)
        ensures
            (final(self)@, res(r)) == spec_detach_client(old(self)@, opt_view(session_name)),
    {
        if let Some(target) = session_name {
            let _ = self.find_session_index(Some(target))?;
            let attached_here = match &self.attached_session {
                Some(a) => str_eq(a.as_str(), target),
                None => false,
            };
            if attached_here {
                self.attached_session = None;
                self.client.attached_session = None;
                return Ok(owned(target));
            }
            return Err(StateError::NoAttachedSession);
        }
        match self.attached_session.take() {
            Some(name) => {
                self.client.attached_session = None;
                Ok(name)
            },
            None => Err(StateError::NoAttachedSession),
        }
    }

    /// The sessions, in creation order.
    pub fn sessions(&self) -> (r: &[Session])
        ensures
            sessions_view(r@) == self@.sessions,
    {
        self.sessions.as_slice()
    }

    fn client_record_exec(&self) -> (r: ClientRecord)
        ensures
            r@ == client_record(self@),
    {
        ClientRecord {
            id: self.client.id,
            name: self.client.name.clone(),
            attached_session: clone_opt(&self.client.attached_session),
            locked: self.client.locked,
            suspended: self.client.suspended,
            server_locked: self.server_locked,
        }
    }

    /// The clients: the one local client.
    pub fn list_clients(&self) -> (r: Vec<ClientRecord>)
        ensures
            r@.len() == 1,
            r@[0]@ == client_record(self@),
    {
        vec![self.client_record_exec()]
    }

    /// Locks the client.
    pub fn lock_client(&mut self) -> (r: ClientRecord)
        ensures
            final(self)@ == (StateView {
                client: ClientView { locked: true, ..old(self)@.client },
                ..old(self)@
            }),
            r@ == client_record(final(self)@),
    {
        self.client.locked = true;
        self.client_record_exec()
    }

    /// Suspends the client.
    pub fn suspend_client(&mut self) -> (r: ClientRecord)
        ensures
            final(self)@ == (StateView {
                client: ClientView { suspended: true, ..old(self)@.client },
                ..old(self)@
            }),
            r@ == client_record(final(self)@),
    {
        self.client.suspended = true;
        self.client_record_exec()
    }

    /// Locks the server.
    pub fn lock_server(&mut self) -> (r: bool)
        ensures
            final(self)@ == (StateView { server_locked: true, ..old(self)@ }),
            r,
    {
        self.server_locked = true;
        self.server_locked
    }

    /// Locks a session (the first one when none is named).
    pub fn lock_session(&mut self, session_name: Option<&str>) -> (r: Result<String, StateError>)
        ensures
            (final(self)@, res(r)) == spec_lock_session(old(self)@, opt_view(session_name)),
    {
        let session_index = self.find_session_index(session_name)?;
        let name = self.sessions[session_index].name.clone();
        names_add(&mut self.locked_sessions, name.as_str());
        Ok(name)
    }

    fn push_message(&mut self, message: String)
        ensures
            final(self)@ == (StateView {
                message_log: log_push(old(self)@.message_log, message@),
                ..old(self)@
            }),
    {
        self.message_log.push(message);
        if self.message_log.len() > 200 {
            let overflow = self.message_log.len() - 200;
            let tail = self.message_log.split_off(overflow);
            self.message_log = tail;
        }
        proof {
            assert(self@.message_log =~= log_push(old(self)@.message_log, message@));
        }
    }

    /// Logs a message and hands it back.
    pub fn display_message(&mut self, message: String) -> (r: String)
        ensures
            final(self)@ == (StateView {
                message_log: log_push(old(self)@.message_log, message@),
                ..old(self)@
            }),
            r@ == message@,
    {
        self.push_message(message.clone());
        message
    }

    /// The logged messages, oldest first.
    pub fn show_messages(&self) -> (r: Vec<String>)
        ensures
            strings_view(r@) == self@.message_log,
    {
        clone_strings(&self.message_log)
    }

    /// Sets an option.
    pub fn set_option(&mut self, name: &str, value: &str) -> (r: (String, String))
        ensures
            final(self)@ == (StateView {
                options: table_insert(old(self)@.options, name@, value@),
                ..old(self)@
            }),
            r.0@ == name@,
            r.1@ == value@,
    {
        table_set(&mut self.options, name, value);
        (owned(name), owned(value))
    }

    /// The options: the one named, or all of them in order of names.
    pub fn show_options(&self, name: Option<&str>) -> (r: Vec<(String, String)>)
        ensures
            table_view(r@) == table_show(self@.options, opt_view(name)),
    {
        table_show_exec(&self.options, name)
    }

    /// Sets an environment variable.
    pub fn set_environment(&mut self, name: &str, value: &str) -> (r: (String, String))
        ensures
            final(self)@ == (StateView {
                environment: table_insert(old(self)@.environment, name@, value@),
                ..old(self)@
            }),
            r.0@ == name@,
            r.1@ == value@,
    {
        table_set(&mut self.environment, name, value);
        (owned(name), owned(value))
    }

    /// The environment: the variable named, or all of them in order of names.
    pub fn show_environment(&self, name: Option<&str>) -> (r: Vec<(String, String)>)
        ensures
            table_view(r@) == table_show(self@.environment, opt_view(name)),
    {
        table_show_exec(&self.environment, name)
    }

    /// Kills the session named `name`.
    pub fn kill_session(&mut self, name: &str) -> (r: Result<Session, StateError>)
        ensures
            (final(self)@, res(r)) == spec_kill_session(old(self)@, name@),
    {
        let index = match position_session_named(&self.sessions, name) {
            Some(i) => i,
            None => {
                return Err(StateError::SessionNotFound(owned(name)));
            },
        };
        proof {
            lemma_first_index(sessions_view(self.sessions@), session_named(name@));
        }
        let removed = self.sessions.remove(index);
        proof {
            assert(sessions_view(self.sessions@) =~= old(self)@.sessions.remove(index as int));
        }
        let attached_here = match &self.attached_session {
            Some(a) => str_eq(a.as_str(), removed.name.as_str()),
            None => false,
        };
        if attached_here {
            self.attached_session = if self.sessions.len() > 0 {
                Some(self.sessions[0].name.clone())
            } else {
                None
            };
            self.client.attached_session = clone_opt(&self.attached_session);
        }
        names_drop(&mut self.locked_sessions, removed.name.as_str());
        Ok(removed)
    }

    /// Kills every session and clears locks, options, environment and
    /// messages; yields how many sessions there were.
    pub fn kill_server(&mut self) -> (r: usize)
        ensures
            final(self)@ == spec_kill_server(old(self)@),
            r == old(self)@.sessions.len(),
    {
        let count = self.sessions.len();
        self.sessions.clear();
        self.attached_session = None;
        self.client.attached_session = None;
        self.locked_sessions.clear();
        self.server_locked = false;
        self.client.locked = false;
        self.client.suspended = false;
        self.options.clear();
        self.environment.clear();
        self.message_log.clear();
        proof {
            assert(self@.sessions =~= Seq::<SessionView>::empty());
            assert(self@.locked_sessions =~= Seq::<Seq<char>>::empty());
            assert(self@.options =~= Seq::<(Seq<char>, Seq<char>)>::empty());
            assert(self@.environment =~= Seq::<(Seq<char>, Seq<char>)>::empty());
            assert(self@.message_log =~= Seq::<Seq<char>>::empty());
        }
        count
    }

    /// Starting a server that runs already succeeds and changes nothing.
    pub fn start_server(&mut self) -> (r: bool)
        ensures
            final(self)@ == old(self)@,
            r,
    {
        true
    }

    /// Whether a session is named `name`.
    pub fn has_session(&self, name: &str) -> (r: bool)
        ensures
            r == (first_index(self@.sessions, session_named(name@)) is Some),
    {
        position_session_named(&self.sessions, name).is_some()
    }

    /// Renames the session `session_name` to `new_name`.
    pub fn rename_session(&mut self, session_name: &str, new_name: &str) -> (r: Result<
        Session,
        StateError,
    >)
        ensures
            (final(self)@, res(r)) == spec_rename_session(old(self)@, session_name@, new_name@),
    {
        if position_session_named(&self.sessions, new_name).is_some() {
            return Err(StateError::SessionExists(owned(new_name)));
        }
        let session_index = self.find_session_index(Some(session_name))?;
        self.sessions[session_index].name = owned(new_name);
        proof {
            assert(sessions_view(self.sessions@) =~= old(self)@.sessions.update(
                session_index as int,
                SessionView { name: new_name@, ..old(self)@.sessions[session_index as int] },
            ));
        }
        let attached_here = match &self.attached_session {
            Some(a) => str_eq(a.as_str(), session_name),
            None => false,
        };
        if attached_here {
            self.attached_session = Some(owned(new_name));
            self.client.attached_session = Some(owned(new_name));
        }
        if names_drop(&mut self.locked_sessions, session_name) {
            names_add(&mut self.locked_sessions, new_name);
        }
        Ok(self.sessions[session_index].clone())
    }
}

// ---------------------------------------------------------------------------
// Windows and panes
// ---------------------------------------------------------------------------

/// The session and window a command targets.
pub open spec fn sel_session_window(
    s: StateView,
    session_name: Option<Seq<char>>,
    window_selector: Option<Seq<char>>,
    default_active: bool,
) -> Result<(int, int), StateErrorView> {
    match sel_session(s.sessions, session_name) {
        Err(e) => Err(e),
        Ok(i) => match sel_window(s.sessions[i], window_selector, default_active) {
            Err(e) => Err(e),
            Ok(j) => Ok((i, j)),
        },
    }
}

/// The session, window and pane a command targets; the window defaults to
/// the active one.
pub open spec fn sel_target(
    s: StateView,
    session_name: Option<Seq<char>>,
    window_selector: Option<Seq<char>>,
    pane_selector: Option<Seq<char>>,
    pane_default_active: bool,
) -> Result<(int, int, int), StateErrorView> {
    match sel_session_window(s, session_name, window_selector, true) {
        Err(e) => Err(e),
        Ok((i, j)) => match sel_pane(s.sessions[i].windows[j], pane_selector, pane_default_active) {
            Err(e) => Err(e),
            Ok(k) => Ok((i, j, k)),
        },
    }
}

/// Whether `(i, j)` names a window of the state.
pub open spec fn window_at(s: StateView, i: int, j: int) -> bool {
    0 <= i < s.sessions.len() && 0 <= j < s.sessions[i].windows.len()
}

/// Whether `(i, j, k)` names a pane of the state.
pub open spec fn pane_at(s: StateView, i: int, j: int, k: int) -> bool {
    window_at(s, i, j) && 0 <= k < s.sessions[i].windows[j].panes.len()
}

/// The state with window `j` of session `i` replaced.
pub open spec fn put_window(s: StateView, i: int, j: int, w: WindowView) -> StateView {
    with_session(s, i, with_window(s.sessions[i], j, w))
}

/// The state with pane `k` of window `j` of session `i` replaced.
pub open spec fn put_pane(s: StateView, i: int, j: int, k: int, p: PaneView) -> StateView {
    put_window(s, i, j, with_pane(s.sessions[i].windows[j], k, p))
}

/// The session and window at `(i, j)`.
pub open spec fn window_snapshot(s: StateView, i: int, j: int) -> (SessionView, WindowView) {
    (s.sessions[i], s.sessions[i].windows[j])
}

/// The session, window and pane at `(i, j, k)`.
pub open spec fn pane_snapshot(s: StateView, i: int, j: int, k: int) -> (
    SessionView,
    WindowView,
    PaneView,
) {
    (s.sessions[i], s.sessions[i].windows[j], s.sessions[i].windows[j].panes[k])
}

/// A command that changes one pane and reports it: on the targeted pane,
/// `f` gives the new pane and whether it becomes the active one.
pub open spec fn pane_command(
    s: StateView,
    target: Result<(int, int, int), StateErrorView>,
    f: spec_fn(PaneView) -> PaneView,
    activate: bool,
) -> (StateView, Result<(SessionView, WindowView, PaneView), StateErrorView>) {
    match target {
        Err(e) => (s, Err(e)),
        Ok((i, j, k)) => {
            let p = f(s.sessions[i].windows[j].panes[k]);
            let w = with_pane(s.sessions[i].windows[j], k, p);
            let t = put_window(s, i, j, if activate { activate_pane(w, p.id) } else { w });
            (t, Ok(pane_snapshot(t, i, j, k)))
        },
    }
}

/// `toggle_floating`: the pane floats, or stops floating.
pub open spec fn flip_floating() -> spec_fn(PaneView) -> PaneView {
    |p: PaneView| PaneView { floating: !p.floating, ..p }
}

/// `clear_pane_history`: the pane forgets its last output.
pub open spec fn clear_output() -> spec_fn(PaneView) -> PaneView {
    |p: PaneView| PaneView { last_output: None, ..p }
}

/// `respawn_pane`: the pane forgets its last input and output.
pub open spec fn clear_io() -> spec_fn(PaneView) -> PaneView {
    |p: PaneView| PaneView { last_input: None, last_output: None, ..p }
}

/// `send_keys`: the pane records the keys sent and, when given, the output.
pub open spec fn record_keys(payload: Seq<char>, output: Option<Seq<char>>) -> spec_fn(PaneView) -> PaneView {
    |p: PaneView|
        PaneView {
            last_input: Some(payload),
            last_output: match output {
                Some(o) => Some(o),
                None => p.last_output,
            },
            ..p
        }
}

/// A pane unchanged.
pub open spec fn same_pane() -> spec_fn(PaneView) -> PaneView {
    |p: PaneView| p
}

/// `send_keys`: the keys are recorded in the targeted pane, which becomes
/// the active one; the keys sent are reported with it.
pub open spec fn spec_send_keys(
    s: StateView,
    target: Result<(int, int, int), StateErrorView>,
    keys: Seq<Seq<char>>,
    literal: bool,
    output: Option<Seq<char>>,
) -> (StateView, Result<(SessionView, WindowView, PaneView, Seq<char>), StateErrorView>) {
    let payload = keys_payload(keys, literal);
    let (t, r) = pane_command(s, target, record_keys(payload, output), true);
    (
        t,
        match r {
            Ok((a, b, c)) => Ok((a, b, c, payload)),
            Err(e) => Err(e),
        },
    )
}

/// `select_last_pane`: the pane that was active before (or else the active
/// one) becomes active again.
pub open spec fn spec_select_last_pane(
    s: StateView,
    session_name: Option<Seq<char>>,
    window_selector: Option<Seq<char>>,
) -> (StateView, Result<(SessionView, WindowView, PaneView), StateErrorView>) {
    match sel_session_window(s, session_name, window_selector, true) {
        Err(e) => (s, Err(e)),
        Ok((i, j)) => {
            let w = s.sessions[i].windows[j];
            let target = match w.last_pane_id {
                Some(id) => id,
                None => w.active_pane_id,
            };
            match first_index(w.panes, pane_with_id(target)) {
                None => (s, Err(StateErrorView::PaneNotFound(decimal(target as nat)))),
                Some(k) => pane_command(s, Ok((i, j, k)), same_pane(), true),
            }
        },
    }
}

/// `rename_window`: the targeted window takes the new name; the old name
/// is reported.
pub open spec fn spec_rename_window(
    s: StateView,
    session_name: Option<Seq<char>>,
    window_selector: Option<Seq<char>>,
    new_name: Seq<char>,
) -> (StateView, Result<(SessionView, WindowView, Seq<char>), StateErrorView>) {
    match sel_session_window(s, session_name, window_selector, true) {
        Err(e) => (s, Err(e)),
        Ok((i, j)) => {
            let w = s.sessions[i].windows[j];
            let w2 = WindowView { name: new_name, ..w };
            let t = put_window(s, i, j, w2);
            (t, Ok((t.sessions[i], w2, w.name)))
        },
    }
}

/// `kill_window`: the targeted window leaves its session, unless it is the
/// last one; when it was active, the first window becomes active.
pub open spec fn spec_kill_window(
    s: StateView,
    session_name: Option<Seq<char>>,
    window_selector: Option<Seq<char>>,
) -> (StateView, Result<(SessionView, WindowView), StateErrorView>) {
    match sel_session(s.sessions, session_name) {
        Err(e) => (s, Err(e)),
        Ok(i) => {
            let sv = s.sessions[i];
            if sv.windows.len() == 0 {
                (s, Err(StateErrorView::NoWindows(sv.name)))
            } else if sv.windows.len() == 1 {
                (s, Err(StateErrorView::LastWindowInSession(sv.name)))
            } else {
                match sel_window(sv, window_selector, true) {
                    Err(e) => (s, Err(e)),
                    Ok(j) => {
                        let removed = sv.windows[j];
                        let rest = SessionView { windows: sv.windows.remove(j), ..sv };
                        let sv2 = if sv.active_window_id == removed.id {
                            activate_window(rest, rest.windows[0].id)
                        } else {
                            rest
                        };
                        (with_session(s, i, sv2), Ok((sv2, removed)))
                    },
                }
            }
        },
    }
}

/// A command that makes window `j` of session `i` active and reports it.
pub open spec fn window_select(s: StateView, i: int, j: int) -> (StateView, Result<
    (SessionView, WindowView),
    StateErrorView,
>) {
    let sv = activate_window(s.sessions[i], s.sessions[i].windows[j].id);
    (with_session(s, i, sv), Ok((sv, sv.windows[j])))
}

/// `select_window`: the window the selector names becomes active.
pub open spec fn spec_select_window(
    s: StateView,
    session_name: Option<Seq<char>>,
    window_selector: Seq<char>,
) -> (StateView, Result<(SessionView, WindowView), StateErrorView>) {
    match sel_session_window(s, session_name, Some(window_selector), false) {
        Err(e) => (s, Err(e)),
        Ok((i, j)) => window_select(s, i, j),
    }
}

/// `select_next_window` (`forward`) and `select_previous_window`: the
/// window after (before) the active one, cyclically, becomes active.
pub open spec fn spec_select_adjacent_window(
    s: StateView,
    session_name: Option<Seq<char>>,
    forward: bool,
) -> (StateView, Result<(SessionView, WindowView), StateErrorView>) {
    match sel_session_window(s, session_name, None, true) {
        Err(e) => (s, Err(e)),
        Ok((i, cur)) => {
            let n = s.sessions[i].windows.len();
            let j = if forward {
                (cur + 1) % (n as int)
            } else if cur == 0 {
                n - 1
            } else {
                cur - 1
            };
            window_select(s, i, j)
        },
    }
}

/// `select_last_window`: the window that was active before (or else the
/// active one) becomes active again.
pub open spec fn spec_select_last_window(s: StateView, session_name: Option<Seq<char>>) -> (
    StateView,
    Result<(SessionView, WindowView), StateErrorView>,
) {
    match sel_session(s.sessions, session_name) {
        Err(e) => (s, Err(e)),
        Ok(i) => {
            let sv = s.sessions[i];
            let target = match sv.last_window_id {
                Some(id) => id,
                None => sv.active_window_id,
            };
            match first_index(sv.windows, window_with_id(target)) {
                None => (s, Err(StateErrorView::WindowNotFound(decimal(target as nat)))),
                Some(j) => window_select(s, i, j),
            }
        },
    }
}

/// `create_window`: a new window holding one shell pane joins the session
/// and becomes its active window; without a name it is named by its index.
pub open spec fn spec_create_window(
    s: StateView,
    session_name: Option<Seq<char>>,
    window_name: Option<Seq<char>>,
) -> (StateView, Result<(SessionView, WindowView), StateErrorView>) {
    match sel_session(s.sessions, session_name) {
        Err(e) => (s, Err(e)),
        Ok(i) => {
            let sv = s.sessions[i];
            let pane = fresh_pane(s.next_pane_id, "shell"@);
            let name = match window_name {
                Some(n) => n,
                None => decimal(sv.windows.len()),
            };
            let w = fresh_window(s.next_window_id, name, pane);
            let sv2 = activate_window(SessionView { windows: sv.windows.push(w), ..sv }, w.id);
            (
                StateView {
                    next_pane_id: (s.next_pane_id + 1) as u64,
                    next_window_id: (s.next_window_id + 1) as u64,
                    sessions: s.sessions.update(i, sv2),
                    ..s
                },
                Ok((sv2, w)),
            )
        },
    }
}

/// A pane resized to `rows` by `cols`.
pub open spec fn sized(rows: u16, cols: u16) -> spec_fn(PaneView) -> PaneView {
    |p: PaneView| PaneView { rows, cols, ..p }
}

/// `resize_window`: every pane of the window takes the size (at least one
/// row and one column); the panes are reported.
pub open spec fn spec_resize_window(
    s: StateView,
    session_name: Option<Seq<char>>,
    window_selector: Option<Seq<char>>,
    rows: u16,
    cols: u16,
) -> (StateView, Result<(SessionView, WindowView, Seq<PaneView>), StateErrorView>) {
    match sel_session_window(s, session_name, window_selector, true) {
        Err(e) => (s, Err(e)),
        Ok((i, j)) => {
            let w = s.sessions[i].windows[j];
            let r = if rows == 0 { 1u16 } else { rows };
            let c = if cols == 0 { 1u16 } else { cols };
            let w2 = WindowView { panes: w.panes.map_values(sized(r, c)), ..w };
            let t = put_window(s, i, j, w2);
            (t, Ok((t.sessions[i], w2, w2.panes)))
        },
    }
}

/// `split_window`: a new pane joins the targeted window next to its active
/// pane, splitting that pane's leaf along `layout`, and becomes active; the
/// window becomes the session's active window.
pub open spec fn spec_split_window(
    s: StateView,
    session_name: Option<Seq<char>>,
    window_selector: Option<Seq<char>>,
    title: Option<Seq<char>>,
    layout: WindowLayout,
) -> (StateView, Result<(SessionView, WindowView, PaneView), StateErrorView>) {
    match sel_session_window(s, session_name, window_selector, true) {
        Err(e) => (s, Err(e)),
        Ok((i, j)) => {
            let sv = s.sessions[i];
            let w = sv.windows[j];
            let pane = fresh_pane(
                s.next_pane_id,
                match title {
                    Some(t) => t,
                    None => "shell"@,
                },
            );
            let target = w.active_pane_id;
            let tree = match w.layout_tree {
                Some(t) => spec_split_leaf(t, target, pane.id, layout).0,
                None => split_of(layout, target, pane.id),
            };
            let w2 = activate_pane(
                WindowView { panes: w.panes.push(pane), layout, layout_tree: Some(tree), ..w },
                pane.id,
            );
            let sv2 = activate_window(with_window(sv, j, w2), w2.id);
            (
                StateView {
                    next_pane_id: (s.next_pane_id + 1) as u64,
                    sessions: s.sessions.update(i, sv2),
                    ..s
                },
                Ok((sv2, w2, pane)),
            )
        },
    }
}

/// The window without its pane `k`: the pane's leaves leave the tree, and
/// when it was active the first remaining pane becomes active.
pub open spec fn detach_pane(w: WindowView, k: int) -> WindowView {
    let id = w.panes[k].id;
    let w1 = WindowView {
        panes: w.panes.remove(k),
        layout_tree: match w.layout_tree {
            Some(t) => spec_remove_leaf(t, id),
            None => None,
        },
        ..w
    };
    if w.active_pane_id == id {
        activate_pane(w1, w1.panes[0].id)
    } else {
        w1
    }
}

/// `kill_pane`: the targeted pane leaves its window, unless it is the last.
pub open spec fn spec_kill_pane(
    s: StateView,
    session_name: Option<Seq<char>>,
    window_selector: Option<Seq<char>>,
    pane_selector: Option<Seq<char>>,
) -> (StateView, Result<(SessionView, WindowView, PaneView), StateErrorView>) {
    match sel_session_window(s, session_name, window_selector, true) {
        Err(e) => (s, Err(e)),
        Ok((i, j)) => {
            let w = s.sessions[i].windows[j];
            if w.panes.len() == 1 {
                (s, Err(StateErrorView::LastPaneInWindow(w.name)))
            } else {
                match sel_pane(w, pane_selector, true) {
                    Err(e) => (s, Err(e)),
                    Ok(k) => {
                        let w2 = detach_pane(w, k);
                        let t = put_window(s, i, j, w2);
                        (t, Ok((t.sessions[i], w2, w.panes[k])))
                    },
                }
            }
        },
    }
}

/// `break_pane`: the targeted pane leaves its window (unless it is the
/// last) for a new window of its own, which becomes active.
pub open spec fn spec_break_pane(
    s: StateView,
    session_name: Option<Seq<char>>,
    window_selector: Option<Seq<char>>,
    pane_selector: Option<Seq<char>>,
    new_window_name: Option<Seq<char>>,
) -> (StateView, Result<(SessionView, WindowView, WindowView, PaneView), StateErrorView>) {
    match sel_session_window(s, session_name, window_selector, true) {
        Err(e) => (s, Err(e)),
        Ok((i, j)) => {
            let sv = s.sessions[i];
            let w = sv.windows[j];
            if w.panes.len() == 1 {
                (s, Err(StateErrorView::LastPaneInWindow(w.name)))
            } else {
                match sel_pane(w, pane_selector, true) {
                    Err(e) => (s, Err(e)),
                    Ok(k) => {
                        let pane = w.panes[k];
                        let w2 = detach_pane(w, k);
                        let name = match new_window_name {
                            Some(n) => n,
                            None => decimal(sv.windows.len()),
                        };
                        let nw = fresh_window(s.next_window_id, name, pane);
                        let sv2 = activate_window(
                            SessionView { windows: sv.windows.update(j, w2).push(nw), ..sv },
                            nw.id,
                        );
                        (
                            StateView {
                                next_window_id: (s.next_window_id + 1) as u64,
                                sessions: s.sessions.update(i, sv2),
                                ..s
                            },
                            Ok((sv2, w2, nw, pane)),
                        )
                    },
                }
            }
        },
    }
}

/// The window's active pane, or its first pane when the active id names
/// none of them.
pub open spec fn active_or_first(w: WindowView) -> PaneView {
    match first_index(w.panes, pane_with_id(w.active_pane_id)) {
        Some(x) => w.panes[x],
        None => w.panes[0],
    }
}

/// `swap_panes`: the leaves of two panes trade places in the tree (the
/// destination defaults to the pane after the source); the active pane is
/// reported.
pub open spec fn spec_swap_panes(
    s: StateView,
    session_name: Option<Seq<char>>,
    window_selector: Option<Seq<char>>,
    src_pane_selector: Option<Seq<char>>,
    dst_pane_selector: Option<Seq<char>>,
) -> (StateView, Result<(SessionView, WindowView, PaneView), StateErrorView>) {
    match sel_session_window(s, session_name, window_selector, true) {
        Err(e) => (s, Err(e)),
        Ok((i, j)) => {
            let w = s.sessions[i].windows[j];
            let n = w.panes.len();
            if n == 0 {
                (s, Err(StateErrorView::NoPanes(w.name)))
            } else if n == 1 {
                (s, Ok((s.sessions[i], w, w.panes[0])))
            } else {
                match sel_pane(w, src_pane_selector, true) {
                    Err(e) => (s, Err(e)),
                    Ok(src) => {
                        let dst_r = match dst_pane_selector {
                            Some(d) => sel_pane(w, Some(d), false),
                            None => Ok((src + 1) % (n as int)),
                        };
                        match dst_r {
                            Err(e) => (s, Err(e)),
                            Ok(dst) => {
                                let w2 = if src != dst {
                                    match w.layout_tree {
                                        Some(t) => WindowView {
                                            layout_tree: Some(
                                                spec_swap_ids(t, w.panes[src].id, w.panes[dst].id),
                                            ),
                                            ..w
                                        },
                                        None => w,
                                    }
                                } else {
                                    w
                                };
                                let t = put_window(s, i, j, w2);
                                (t, Ok((t.sessions[i], w2, active_or_first(w2))))
                            },
                        }
                    },
                }
            }
        },
    }
}

/// A sequence turned by one place: the first element moves to the end
/// (`upward`), or the last to the front.
pub open spec fn rotated<A>(s: Seq<A>, upward: bool) -> Seq<A> {
    if s.len() == 0 {
        s
    } else if upward {
        s.drop_first().push(s[0])
    } else {
        seq![s.last()] + s.drop_last()
    }
}

/// `rotate_window`: the panes move one place along the tree's leaves (or
/// along the pane list when there is no tree); the active pane is reported.
pub open spec fn spec_rotate_window(
    s: StateView,
    session_name: Option<Seq<char>>,
    window_selector: Option<Seq<char>>,
    upward: bool,
) -> (StateView, Result<(SessionView, WindowView, PaneView), StateErrorView>) {
    match sel_session_window(s, session_name, window_selector, true) {
        Err(e) => (s, Err(e)),
        Ok((i, j)) => {
            let w = s.sessions[i].windows[j];
            let w2 = if w.panes.len() > 1 {
                match w.layout_tree {
                    Some(t) => if leaves(t).len() > 1 {
                        WindowView {
                            layout_tree: Some(spec_assign(t, rotated(leaves(t), upward), 0).0),
                            ..w
                        }
                    } else {
                        w
                    },
                    None => WindowView { panes: rotated(w.panes, upward), ..w },
                }
            } else {
                w
            };
            if w2.panes.len() == 0 {
                (s, Err(StateErrorView::NoPanes(w2.name)))
            } else {
                let t = put_window(s, i, j, w2);
                (t, Ok((t.sessions[i], w2, active_or_first(w2))))
            }
        },
    }
}

/// `join_pane`: the source pane leaves its window (unless it is the last)
/// and joins the destination window, before the pane that
/// `dst_pane_selector` names (else at the end) and splitting that pane's
/// leaf (else the active pane's); it becomes the active pane of the
/// destination, which becomes the active window.  When the destination pane
/// cannot be found, the source window has already lost the pane.
pub open spec fn spec_join_pane(
    s: StateView,
    session_name: Option<Seq<char>>,
    src_window_selector: Option<Seq<char>>,
    src_pane_selector: Option<Seq<char>>,
    dst_window_selector: Option<Seq<char>>,
    dst_pane_selector: Option<Seq<char>>,
) -> (StateView, Result<(SessionView, WindowView, WindowView, PaneView), StateErrorView>) {
    match sel_session(s.sessions, session_name) {
        Err(e) => (s, Err(e)),
        Ok(i) => {
            let sv = s.sessions[i];
            match sel_window(sv, src_window_selector, true) {
                Err(e) => (s, Err(e)),
                Ok(sj) => match sel_window(sv, dst_window_selector, true) {
                    Err(e) => (s, Err(e)),
                    Ok(dj) => if sj == dj {
                        (
                            s,
                            Err(
                                StateErrorView::WindowNotFound(
                                    "join-pane source and destination must differ"@,
                                ),
                            ),
                        )
                    } else {
                        let src = sv.windows[sj];
                        match sel_pane(src, src_pane_selector, true) {
                            Err(e) => (s, Err(e)),
                            Ok(k) => if src.panes.len() == 1 {
                                (s, Err(StateErrorView::LastPaneInWindow(src.name)))
                            } else {
                                let pane = src.panes[k];
                                let src2 = detach_pane(src, k);
                                let dst = sv.windows[dj];
                                let placed = match dst_pane_selector {
                                    Some(d) => match sel_pane(dst, Some(d), false) {
                                        Ok(x) => Ok((x, dst.panes[x].id)),
                                        Err(e) => Err(e),
                                    },
                                    None => Ok((dst.panes.len() as int, dst.active_pane_id)),
                                };
                                match placed {
                                    Err(e) => (put_window(s, i, sj, src2), Err(e)),
                                    Ok((at, target)) => {
                                        let tree = match dst.layout_tree {
                                            Some(t) => spec_split_leaf(t, target, pane.id, dst.layout).0,
                                            None => split_of(dst.layout, target, pane.id),
                                        };
                                        let dst2 = activate_pane(
                                            WindowView {
                                                panes: dst.panes.insert(at, pane),
                                                layout_tree: Some(tree),
                                                ..dst
                                            },
                                            pane.id,
                                        );
                                        let sv2 = activate_window(
                                            SessionView {
                                                windows: sv.windows.update(sj, src2).update(dj, dst2),
                                                ..sv
                                            },
                                            dst2.id,
                                        );
                                        (with_session(s, i, sv2), Ok((sv2, src2, dst2, pane)))
                                    },
                                }
                            },
                        }
                    },
                },
            }
        },
    }
}

/// The ids of some panes, in order.
pub open spec fn ids_of(ps: Seq<PaneView>) -> Seq<u64> {
    ps.map_values(|p: PaneView| p.id)
}

/// Whether a preset layout can be applied to the targeted window: its pane
/// count fits the `u16` arithmetic of the split ratios.
pub open spec fn layout_fits(
    s: StateView,
    session_name: Option<Seq<char>>,
    window_selector: Option<Seq<char>>,
) -> bool {
    match sel_session_window(s, session_name, window_selector, true) {
        Ok((i, j)) => s.sessions[i].windows[j].panes.len() < 65536,
        Err(_) => true,
    }
}

/// `apply_layout`: the targeted window's tree is rebuilt from the preset
/// over its panes in order, and the panes' sizes are reset.
pub open spec fn spec_apply_layout(
    s: StateView,
    session_name: Option<Seq<char>>,
    window_selector: Option<Seq<char>>,
    layout: PresetLayout,
) -> (StateView, Result<(SessionView, WindowView), StateErrorView>) {
    match sel_session_window(s, session_name, window_selector, true) {
        Err(e) => (s, Err(e)),
        Ok((i, j)) => {
            let w = s.sessions[i].windows[j];
            if w.panes.len() == 0 {
                (s, Err(StateErrorView::NoPanes(w.name)))
            } else {
                let (o, tree) = spec_build_preset(layout, ids_of(w.panes));
                let w2 = WindowView {
                    layout: o,
                    layout_tree: Some(tree),
                    panes: w.panes.map_values(sized(0, 0)),
                    ..w
                };
                let t = put_window(s, i, j, w2);
                (t, Ok((t.sessions[i], w2)))
            }
        },
    }
}

/// The place of a preset in the layout cycle.
pub open spec fn preset_index(p: PresetLayout) -> int {
    match p {
        PresetLayout::EvenHorizontal => 0,
        PresetLayout::EvenVertical => 1,
        PresetLayout::MainHorizontal => 2,
        PresetLayout::MainVertical => 3,
        PresetLayout::Tiled => 4,
    }
}

/// The preset at a place of the layout cycle.
pub open spec fn preset_at(n: int) -> PresetLayout {
    if n == 0 {
        PresetLayout::EvenHorizontal
    } else if n == 1 {
        PresetLayout::EvenVertical
    } else if n == 2 {
        PresetLayout::MainHorizontal
    } else if n == 3 {
        PresetLayout::MainVertical
    } else {
        PresetLayout::Tiled
    }
}

/// The preset after (`forward`) or before `p` in the layout cycle.
pub open spec fn next_preset(p: PresetLayout, forward: bool) -> PresetLayout {
    if forward {
        preset_at((preset_index(p) + 1) % 5)
    } else {
        preset_at((preset_index(p) + 4) % 5)
    }
}

/// `cycle_layout`: the preset after (or before) the window's current one is
/// applied, and becomes its current preset.
pub open spec fn spec_cycle_layout(
    s: StateView,
    session_name: Option<Seq<char>>,
    window_selector: Option<Seq<char>>,
    forward: bool,
) -> (StateView, Result<(SessionView, WindowView, PresetLayout), StateErrorView>) {
    match sel_session_window(s, session_name, window_selector, true) {
        Err(e) => (s, Err(e)),
        Ok((i, j)) => {
            let next = next_preset(s.sessions[i].windows[j].current_layout, forward);
            let (t, r) = spec_apply_layout(s, session_name, window_selector, next);
            match r {
                Err(e) => (t, Err(e)),
                Ok((sv, _)) => match sel_session_window(t, Some(sv.name), window_selector, true) {
                    Err(e) => (t, Err(e)),
                    Ok((i2, j2)) => {
                        let w2 = WindowView { current_layout: next, ..t.sessions[i2].windows[j2] };
                        let t2 = put_window(t, i2, j2, w2);
                        (t2, Ok((t2.sessions[i2], w2, next)))
                    },
                },
            }
        },
    }
}

/// The most rows (`rows`) or columns of any of the panes, zero when there
/// are none.
pub open spec fn most_cells(ps: Seq<PaneView>, rows: bool) -> int
    decreases ps.len(),
{
    if ps.len() == 0 {
        0
    } else {
        max2(most_cells(ps.drop_last(), rows), if rows { ps.last().rows as int } else { ps.last().cols as int })
    }
}

/// The extent that `resize_pane` assumes for a window: the largest pane
/// extent, or `fallback` without panes, and at least one.
pub open spec fn window_extent(ps: Seq<PaneView>, rows: bool, fallback: int) -> int {
    if ps.len() == 0 {
        fallback
    } else {
        max2(most_cells(ps, rows), 1)
    }
}

/// Whether `resize_pane` on the targeted pane stays within `i32`: its
/// window's tree is small enough.
pub open spec fn resize_fits(
    s: StateView,
    session_name: Option<Seq<char>>,
    window_selector: Option<Seq<char>>,
    pane_selector: Option<Seq<char>>,
) -> bool {
    match sel_target(s, session_name, window_selector, pane_selector, true) {
        Ok((i, j, k)) => match s.sessions[i].windows[j].layout_tree {
            Some(t) => tree_resizable(t),
            None => true,
        },
        Err(_) => true,
    }
}

/// The size a pane takes when `resize_pane` finds no split to move: its
/// rows (for up and down, at least ten to start from, never under three) or
/// columns (at least twenty to start from, never under ten) move by `delta`.
pub open spec fn hinted_size(p: PaneView, direction: ResizeDirection, delta: int) -> PaneView {
    match direction {
        ResizeDirection::Up => PaneView { rows: max2(max2(p.rows as int, 10) - delta, 3) as u16, ..p },
        ResizeDirection::Down => PaneView { rows: max2(max2(p.rows as int, 10) + delta, 3) as u16, ..p },
        ResizeDirection::Left => PaneView { cols: max2(max2(p.cols as int, 20) - delta, 10) as u16, ..p },
        ResizeDirection::Right => PaneView { cols: max2(max2(p.cols as int, 20) + delta, 10) as u16, ..p },
    }
}

/// `resize_pane`: the split nearest the targeted pane along the direction
/// moves its border by `amount` cells (at least one); when no split moves,
/// the pane's own size hint changes instead (not for up and down in a
/// window of one pane).
pub open spec fn spec_resize_pane(
    s: StateView,
    session_name: Option<Seq<char>>,
    window_selector: Option<Seq<char>>,
    pane_selector: Option<Seq<char>>,
    direction: ResizeDirection,
    amount: u16,
) -> (StateView, Result<(SessionView, WindowView, PaneView), StateErrorView>) {
    match sel_target(s, session_name, window_selector, pane_selector, true) {
        Err(e) => (s, Err(e)),
        Ok((i, j, k)) => {
            let w = s.sessions[i].windows[j];
            let delta: u16 = if amount == 0 { 1 } else { amount };
            let rows = window_extent(w.panes, true, 40);
            let cols = window_extent(w.panes, false, 120);
            let moved = match w.layout_tree {
                Some(t) => spec_resize(t, w.panes[k].id, direction, delta, cols, rows).1,
                None => false,
            };
            if moved {
                let w2 = WindowView {
                    layout_tree: Some(spec_resize(w.layout_tree->0, w.panes[k].id, direction, delta, cols, rows).0),
                    ..w
                };
                let t = put_window(s, i, j, w2);
                (t, Ok(pane_snapshot(t, i, j, k)))
            } else if (direction == ResizeDirection::Up || direction == ResizeDirection::Down) && w.panes.len() <= 1 {
                (s, Ok(pane_snapshot(s, i, j, k)))
            } else {
                let t = put_pane(s, i, j, k, hinted_size(w.panes[k], direction, delta as int));
                (t, Ok(pane_snapshot(t, i, j, k)))
            }
        },
    }
}

/// The predicate "one of the window's panes has the id `id`".
pub open spec fn window_has_pane(id: u64) -> spec_fn(WindowView) -> bool {
    |w: WindowView| first_index(w.panes, pane_with_id(id)) is Some
}

/// The predicate "one of the session's panes has the id `id`".
pub open spec fn session_has_pane(id: u64) -> spec_fn(SessionView) -> bool {
    |sv: SessionView| first_index(sv.windows, window_has_pane(id)) is Some
}

/// `set_pane_output`: the first pane with the id (session by session,
/// window by window) records the output; false when there is none.
pub open spec fn spec_set_pane_output(s: StateView, id: u64, output: Seq<char>) -> (StateView, bool) {
    match first_index(s.sessions, session_has_pane(id)) {
        None => (s, false),
        Some(i) => {
            let j = first_index(s.sessions[i].windows, window_has_pane(id))->0;
            let k = first_index(s.sessions[i].windows[j].panes, pane_with_id(id))->0;
            let p = s.sessions[i].windows[j].panes[k];
            (put_pane(s, i, j, k, PaneView { last_output: Some(output), ..p }), true)
        },
    }
}

/// The sessions a listing covers: the one named, or all of them.
pub open spec fn sel_sessions(s: StateView, session_name: Option<Seq<char>>) -> Result<
    Seq<SessionView>,
    StateErrorView,
> {
    match session_name {
        Some(n) => match first_index(s.sessions, session_named(n)) {
            Some(i) => Ok(seq![s.sessions[i]]),
            None => Err(StateErrorView::SessionNotFound(n)),
        },
        None => if s.sessions.len() == 0 {
            Err(StateErrorView::NoSessions)
        } else {
            Ok(s.sessions)
        },
    }
}

/// The `list-windows` line of a window of a session.
pub open spec fn window_record(sv: SessionView, w: WindowView) -> WindowRecordView {
    WindowRecordView {
        session_id: sv.id,
        session_name: sv.name,
        window_id: w.id,
        window_name: w.name,
        pane_count: w.panes.len() as usize,
        active: sv.active_window_id == w.id,
        layout: w.layout,
        layout_tree: w.layout_tree,
    }
}

/// The `list-windows` lines of a session.
pub open spec fn session_window_records(sv: SessionView) -> Seq<WindowRecordView> {
    sv.windows.map_values(|w: WindowView| window_record(sv, w))
}

/// The `list-windows` lines of some sessions, session after session.
pub open spec fn window_records(ss: Seq<SessionView>) -> Seq<WindowRecordView>
    decreases ss.len(),
{
    if ss.len() == 0 {
        seq![]
    } else {
        window_records(ss.drop_last()) + session_window_records(ss.last())
    }
}

/// The `list-panes` line of a pane of a window of a session.
pub open spec fn pane_record(sv: SessionView, w: WindowView, p: PaneView) -> PaneRecordView {
    PaneRecordView {
        session_id: sv.id,
        session_name: sv.name,
        window_id: w.id,
        window_name: w.name,
        pane_id: p.id,
        pane_title: p.title,
        active: w.active_pane_id == p.id,
        last_input: p.last_input,
        last_output: p.last_output,
        rows: p.rows,
        cols: p.cols,
        floating: p.floating,
    }
}

/// The `list-panes` lines of a window.
pub open spec fn window_pane_records(sv: SessionView, w: WindowView) -> Seq<PaneRecordView> {
    w.panes.map_values(|p: PaneView| pane_record(sv, w, p))
}

/// The `list-panes` lines of some windows of a session, window after window.
pub open spec fn windows_pane_records(sv: SessionView, ws: Seq<WindowView>) -> Seq<PaneRecordView>
    decreases ws.len(),
{
    if ws.len() == 0 {
        seq![]
    } else {
        windows_pane_records(sv, ws.drop_last()) + window_pane_records(sv, ws.last())
    }
}

/// The `list-panes` lines of a session: of the window the selector names,
/// or of all its windows.
pub open spec fn session_pane_records(sv: SessionView, window_selector: Option<Seq<char>>) -> Result<
    Seq<PaneRecordView>,
    StateErrorView,
> {
    match window_selector {
        Some(sel) => match sel_window(sv, Some(sel), false) {
            Err(e) => Err(e),
            Ok(j) => Ok(window_pane_records(sv, sv.windows[j])),
        },
        None => Ok(windows_pane_records(sv, sv.windows)),
    }
}

/// The `list-panes` lines of some sessions: of the window the selector names
/// in each (the first failure to find one is the error), or of all their
/// windows.
pub open spec fn pane_records(ss: Seq<SessionView>, window_selector: Option<Seq<char>>) -> Result<
    Seq<PaneRecordView>,
    StateErrorView,
>
    decreases ss.len(),
{
    if ss.len() == 0 {
        Ok(seq![])
    } else {
        match pane_records(ss.drop_last(), window_selector) {
            Err(e) => Err(e),
            Ok(before) => match session_pane_records(ss.last(), window_selector) {
                Err(e) => Err(e),
                Ok(x) => Ok(before + x),
            },
        }
    }
}

/// The views of some window records.
pub open spec fn window_records_view(v: Seq<WindowRecord>) -> Seq<WindowRecordView> {
    v.map_values(|r: WindowRecord| r@)
}

/// The views of some pane records.
pub open spec fn pane_records_view(v: Seq<PaneRecord>) -> Seq<PaneRecordView> {
    v.map_values(|r: PaneRecord| r@)
}

/// The keys of `send_keys` as one string: joined with nothing when literal,
/// else with spaces.
pub open spec fn keys_payload(keys: Seq<Seq<char>>, literal: bool) -> Seq<char> {
    join_with(keys, if literal { ""@ } else { " "@ })
}

impl ServerState {
    fn locate_window(
        &self,
        session_name: Option<&str>,
        window_selector: Option<&str>,
        default_active: bool,
    ) -> (r: Result<(usize, usize), StateError>)
        ensures
            match (r, sel_session_window(self@, opt_view(session_name), opt_view(window_selector), default_active)) {
                (Ok((i, j)), Ok((si, sj))) => i == si && j == sj && window_at(self@, i as int, j as int),
                (Err(e), Err(ev)) => e@ == ev,
                _ => false,
            },
    {
        let i = self.find_session_index(session_name)?;
        let j = find_window_index_in_session(&self.sessions[i], window_selector, default_active)?;
        Ok((i, j))
    }

    fn locate_pane(
        &self,
        session_name: Option<&str>,
        window_selector: Option<&str>,
        pane_selector: Option<&str>,
        pane_default_active: bool,
    ) -> (r: Result<(usize, usize, usize), StateError>)
        ensures
            match (r, sel_target(self@, opt_view(session_name), opt_view(window_selector), opt_view(pane_selector), pane_default_active)) {
                (Ok((i, j, k)), Ok((si, sj, sk))) => i == si && j == sj && k == sk && pane_at(
                    self@,
                    i as int,
                    j as int,
                    k as int,
                ),
                (Err(e), Err(ev)) => e@ == ev,
                _ => false,
            },
    {
        let (i, j) = self.locate_window(session_name, window_selector, true)?;
        let k = find_pane_index_in_window(&self.sessions[i].windows[j], pane_selector, pane_default_active)?;
        Ok((i, j, k))
    }

    fn window_snapshot(&self, i: usize, j: usize) -> (r: (Session, Window))
        requires
            window_at(self@, i as int, j as int),
        ensures
            r@ == window_snapshot(self@, i as int, j as int),
    {
        (self.sessions[i].clone(), self.sessions[i].windows[j].clone())
    }

    fn pane_snapshot(&self, i: usize, j: usize, k: usize) -> (r: (Session, Window, Pane))
        requires
            pane_at(self@, i as int, j as int, k as int),
        ensures
            r@ == pane_snapshot(self@, i as int, j as int, k as int),
    {
        (
            self.sessions[i].clone(),
            self.sessions[i].windows[j].clone(),
            self.sessions[i].windows[j].panes[k].clone(),
        )
    }

    /// Makes the pane float, or stop floating.
    pub fn toggle_floating(
        &mut self,
        session_name: Option<&str>,
        window_selector: Option<&str>,
        pane_selector: Option<&str>,
    ) -> (r: Result<(Session, Window, Pane), StateError>)
        ensures
            (final(self)@, res(r)) == pane_command(
                old(self)@,
                sel_target(old(self)@, opt_view(session_name), opt_view(window_selector), opt_view(pane_selector), true),
                flip_floating(),
                false,
            ),
    {
        let (i, j, k) = self.locate_pane(session_name, window_selector, pane_selector, true)?;
        let f = self.sessions[i].windows[j].panes[k].floating;
        self.sessions[i].windows[j].panes[k].floating = !f;
        proof {
            let o = old(self)@;
            let p = flip_floating()(o.sessions[i as int].windows[j as int].panes[k as int]);
            assert(self@.sessions[i as int].windows[j as int].panes =~= o.sessions[i as int].windows[j as int].panes.update(k as int, p));
            assert(self@.sessions[i as int].windows =~= o.sessions[i as int].windows.update(j as int, with_pane(o.sessions[i as int].windows[j as int], k as int, p)));
            assert(self@.sessions =~= put_pane(o, i as int, j as int, k as int, p).sessions);
        }
        Ok(self.pane_snapshot(i, j, k))
    }

    /// Makes pane `k` of window `j` of session `i` the active one.
    fn activate_pane_at(&mut self, i: usize, j: usize, k: usize)
        requires
            pane_at(old(self)@, i as int, j as int, k as int),
        ensures
            final(self)@ == put_window(
                old(self)@,
                i as int,
                j as int,
                activate_pane(
                    old(self)@.sessions[i as int].windows[j as int],
                    old(self)@.sessions[i as int].windows[j as int].panes[k as int].id,
                ),
            ),
    {
        let id = self.sessions[i].windows[j].panes[k].id;
        set_active_pane(&mut self.sessions[i].windows[j], id);
        proof {
            let o = old(self)@;
            let w = activate_pane(o.sessions[i as int].windows[j as int], id);
            assert(self@.sessions[i as int].windows[j as int].panes =~= w.panes);
            assert(self@.sessions[i as int].windows =~= o.sessions[i as int].windows.update(j as int, w));
            assert(self@.sessions =~= put_window(o, i as int, j as int, w).sessions);
        }
    }

    /// Forgets the pane's last output.
    pub fn clear_pane_history(
        &mut self,
        session_name: Option<&str>,
        window_selector: Option<&str>,
        pane_selector: Option<&str>,
    ) -> (r: Result<(Session, Window, Pane), StateError>)
        ensures
            (final(self)@, res(r)) == pane_command(
                old(self)@,
                sel_target(old(self)@, opt_view(session_name), opt_view(window_selector), opt_view(pane_selector), true),
                clear_output(),
                false,
            ),
    {
        let (i, j, k) = self.locate_pane(session_name, window_selector, pane_selector, true)?;
        self.sessions[i].windows[j].panes[k].last_output = None;
        proof {
            let o = old(self)@;
            let p = clear_output()(o.sessions[i as int].windows[j as int].panes[k as int]);
            assert(self@.sessions[i as int].windows[j as int].panes =~= o.sessions[i as int].windows[j as int].panes.update(k as int, p));
            assert(self@.sessions[i as int].windows =~= o.sessions[i as int].windows.update(j as int, with_pane(o.sessions[i as int].windows[j as int], k as int, p)));
            assert(self@.sessions =~= put_pane(o, i as int, j as int, k as int, p).sessions);
        }
        Ok(self.pane_snapshot(i, j, k))
    }

    /// Restarts the pane: it forgets its input and output and becomes active.
    pub fn respawn_pane(
        &mut self,
        session_name: Option<&str>,
        window_selector: Option<&str>,
        pane_selector: Option<&str>,
    ) -> (r: Result<(Session, Window, Pane), StateError>)
        ensures
            (final(self)@, res(r)) == pane_command(
                old(self)@,
                sel_target(old(self)@, opt_view(session_name), opt_view(window_selector), opt_view(pane_selector), true),
                clear_io(),
                true,
            ),
    {
        let (i, j, k) = self.locate_pane(session_name, window_selector, pane_selector, true)?;
        self.sessions[i].windows[j].panes[k].last_input = None;
        self.sessions[i].windows[j].panes[k].last_output = None;
        proof {
            let o = old(self)@;
            let p = clear_io()(o.sessions[i as int].windows[j as int].panes[k as int]);
            assert(self@.sessions[i as int].windows[j as int].panes =~= o.sessions[i as int].windows[j as int].panes.update(k as int, p));
            assert(self@.sessions[i as int].windows =~= o.sessions[i as int].windows.update(j as int, with_pane(o.sessions[i as int].windows[j as int], k as int, p)));
            assert(self@.sessions =~= put_pane(o, i as int, j as int, k as int, p).sessions);
        }
        self.activate_pane_at(i, j, k);
        proof {
            let o = old(self)@;
            let p = clear_io()(o.sessions[i as int].windows[j as int].panes[k as int]);
            let w = activate_pane(with_pane(o.sessions[i as int].windows[j as int], k as int, p), p.id);
            assert(self@.sessions[i as int].windows =~= o.sessions[i as int].windows.update(j as int, w));
            assert(self@.sessions =~= put_window(o, i as int, j as int, w).sessions);
        }
        Ok(self.pane_snapshot(i, j, k))
    }

    /// Sends keys to the pane, which records them (and the output, when
    /// given) and becomes active.
    pub fn send_keys(
        &mut self,
        session_name: Option<&str>,
        window_selector: Option<&str>,
        pane_selector: Option<&str>,
        keys: &[String],
        literal: bool,
        output: Option<String>,
    ) -> (r: Result<(Session, Window, Pane, String), StateError>)
        ensures
            (final(self)@, res(r)) == spec_send_keys(
                old(self)@,
                sel_target(old(self)@, opt_view(session_name), opt_view(window_selector), opt_view(pane_selector), true),
                views_of(keys@),
                literal,
                output.deep_view(),
            ),
    {
        let (i, j, k) = self.locate_pane(session_name, window_selector, pane_selector, true)?;
        let payload = if literal {
            join_strings(keys, "")
        } else {
            join_strings(keys, " ")
        };
        let ghost out_view = output.deep_view();
        self.sessions[i].windows[j].panes[k].last_input = Some(payload.clone());
        if let Some(o) = output {
            self.sessions[i].windows[j].panes[k].last_output = Some(o);
        }
        proof {
            let o = old(self)@;
            let p = record_keys(payload@, out_view)(o.sessions[i as int].windows[j as int].panes[k as int]);
            assert(self@.sessions[i as int].windows[j as int].panes[k as int] == p);
            assert(self@.sessions[i as int].windows[j as int].panes =~= o.sessions[i as int].windows[j as int].panes.update(k as int, p));
            assert(self@.sessions[i as int].windows =~= o.sessions[i as int].windows.update(j as int, with_pane(o.sessions[i as int].windows[j as int], k as int, p)));
            assert(self@.sessions =~= put_pane(o, i as int, j as int, k as int, p).sessions);
        }
        self.activate_pane_at(i, j, k);
        proof {
            let o = old(self)@;
            let p = record_keys(payload@, out_view)(o.sessions[i as int].windows[j as int].panes[k as int]);
            let w = activate_pane(with_pane(o.sessions[i as int].windows[j as int], k as int, p), p.id);
            assert(self@.sessions[i as int].windows =~= o.sessions[i as int].windows.update(j as int, w));
            assert(self@.sessions =~= put_window(o, i as int, j as int, w).sessions);
        }
        let (a, b, c) = self.pane_snapshot(i, j, k);
        Ok((a, b, c, payload))
    }

    /// Makes the pane that `pane_selector` names the active one.
    pub fn select_pane(
        &mut self,
        session_name: Option<&str>,
        window_selector: Option<&str>,
        pane_selector: &str,
    ) -> (r: Result<(Session, Window, Pane), StateError>)
        ensures
            (final(self)@, res(r)) == pane_command(
                old(self)@,
                sel_target(old(self)@, opt_view(session_name), opt_view(window_selector), Some(pane_selector@), false),
                same_pane(),
                true,
            ),
    {
        let (i, j, k) = self.locate_pane(session_name, window_selector, Some(pane_selector), false)?;
        proof {
            let o = old(self)@;
            assert(o.sessions[i as int].windows[j as int].panes.update(k as int, o.sessions[i as int].windows[j as int].panes[k as int]) =~= o.sessions[i as int].windows[j as int].panes);
        }
        self.activate_pane_at(i, j, k);
        Ok(self.pane_snapshot(i, j, k))
    }

    /// Makes the pane that was active before the active one again.
    pub fn select_last_pane(
        &mut self,
        session_name: Option<&str>,
        window_selector: Option<&str>,
    ) -> (r: Result<(Session, Window, Pane), StateError>)
        ensures
            (final(self)@, res(r)) == spec_select_last_pane(old(self)@, opt_view(session_name), opt_view(window_selector)),
    {
        let (i, j) = self.locate_window(session_name, window_selector, true)?;
        let target = match self.sessions[i].windows[j].last_pane_id {
            Some(id) => id,
            None => self.sessions[i].windows[j].active_pane_id,
        };
        let k = match position_pane_id(&self.sessions[i].windows[j].panes, target) {
            Some(k) => k,
            None => {
                return Err(StateError::PaneNotFound(u64_to_string(target)));
            },
        };
        proof {
            let o = old(self)@;
            lemma_first_index(o.sessions[i as int].windows[j as int].panes, pane_with_id(target));
            assert(o.sessions[i as int].windows[j as int].panes.update(k as int, o.sessions[i as int].windows[j as int].panes[k as int]) =~= o.sessions[i as int].windows[j as int].panes);
        }
        self.activate_pane_at(i, j, k);
        Ok(self.pane_snapshot(i, j, k))
    }
}

impl ServerState {
    /// Renames the targeted window, reporting its old name.
    pub fn rename_window(
        &mut self,
        session_name: Option<&str>,
        window_selector: Option<&str>,
        new_name: &str,
    ) -> (r: Result<(Session, Window, String), StateError>)
        ensures
            (final(self)@, res(r)) == spec_rename_window(old(self)@, opt_view(session_name), opt_view(window_selector), new_name@),
    {
        let (i, j) = self.locate_window(session_name, window_selector, true)?;
        let old_name = self.sessions[i].windows[j].name.clone();
        self.sessions[i].windows[j].name = owned(new_name);
        proof {
            let o = old(self)@;
            let w2 = WindowView { name: new_name@, ..o.sessions[i as int].windows[j as int] };
            assert(self@.sessions[i as int].windows[j as int].panes =~= w2.panes);
            assert(self@.sessions[i as int].windows =~= o.sessions[i as int].windows.update(j as int, w2));
            assert(self@.sessions =~= put_window(o, i as int, j as int, w2).sessions);
        }
        let (a, b) = self.window_snapshot(i, j);
        Ok((a, b, old_name))
    }

    /// Closes the targeted window, unless it is the last of its session.
    pub fn kill_window(
        &mut self,
        session_name: Option<&str>,
        window_selector: Option<&str>,
    ) -> (r: Result<(Session, Window), StateError>)
        ensures
            (final(self)@, res(r)) == spec_kill_window(old(self)@, opt_view(session_name), opt_view(window_selector)),
    {
        let i = self.find_session_index(session_name)?;
        if self.sessions[i].windows.len() == 0 {
            return Err(StateError::NoWindows(self.sessions[i].name.clone()));
        }
        if self.sessions[i].windows.len() == 1 {
            return Err(StateError::LastWindowInSession(self.sessions[i].name.clone()));
        }
        let j = find_window_index_in_session(&self.sessions[i], window_selector, true)?;
        let removed = self.sessions[i].windows.remove(j);
        proof {
            let o = old(self)@;
            let sv = o.sessions[i as int];
            assert(self@.sessions[i as int].windows =~= sv.windows.remove(j as int));
            assert(removed@ == sv.windows[j as int]);
        }
        if self.sessions[i].active_window_id == removed.id {
            let first = self.sessions[i].windows[0].id;
            set_active_window(&mut self.sessions[i], first);
        }
        proof {
            let o = old(self)@;
            let sv = o.sessions[i as int];
            let rest = SessionView { windows: sv.windows.remove(j as int), ..sv };
            let sv2 = if sv.active_window_id == removed@.id {
                activate_window(rest, rest.windows[0].id)
            } else {
                rest
            };
            assert(self@.sessions[i as int].windows =~= sv2.windows);
            assert(self@.sessions =~= o.sessions.update(i as int, sv2));
        }
        Ok((self.sessions[i].clone(), removed))
    }

    fn select_window_at(&mut self, i: usize, j: usize) -> (r: (Session, Window))
        requires
            window_at(old(self)@, i as int, j as int),
        ensures
            (final(self)@, Ok::<(SessionView, WindowView), StateErrorView>(r@)) == window_select(
                old(self)@,
                i as int,
                j as int,
            ),
    {
        let id = self.sessions[i].windows[j].id;
        set_active_window(&mut self.sessions[i], id);
        proof {
            let o = old(self)@;
            let sv = activate_window(o.sessions[i as int], id);
            assert(self@.sessions[i as int].windows =~= sv.windows);
            assert(self@.sessions =~= o.sessions.update(i as int, sv));
        }
        self.window_snapshot(i, j)
    }

    /// Makes the window that `window_selector` names the active one.
    pub fn select_window(&mut self, session_name: Option<&str>, window_selector: &str) -> (r: Result<
        (Session, Window),
        StateError,
    >)
        ensures
            (final(self)@, res(r)) == spec_select_window(old(self)@, opt_view(session_name), window_selector@),
    {
        let (i, j) = self.locate_window(session_name, Some(window_selector), false)?;
        Ok(self.select_window_at(i, j))
    }

    /// Makes the window after the active one (cyclically) active.
    pub fn select_next_window(&mut self, session_name: Option<&str>) -> (r: Result<
        (Session, Window),
        StateError,
    >)
        ensures
            (final(self)@, res(r)) == spec_select_adjacent_window(old(self)@, opt_view(session_name), true),
    {
        let (i, cur) = self.locate_window(session_name, None, true)?;
        assert(cur < self.sessions[i as int].windows.len());
        let next = (cur + 1) % self.sessions[i].windows.len();
        Ok(self.select_window_at(i, next))
    }

    /// Makes the window before the active one (cyclically) active.
    pub fn select_previous_window(&mut self, session_name: Option<&str>) -> (r: Result<
        (Session, Window),
        StateError,
    >)
        ensures
            (final(self)@, res(r)) == spec_select_adjacent_window(old(self)@, opt_view(session_name), false),
    {
        let (i, cur) = self.locate_window(session_name, None, true)?;
        let prev = if cur == 0 {
            self.sessions[i].windows.len() - 1
        } else {
            cur - 1
        };
        Ok(self.select_window_at(i, prev))
    }

    /// Makes the window that was active before the active one again.
    pub fn select_last_window(&mut self, session_name: Option<&str>) -> (r: Result<
        (Session, Window),
        StateError,
    >)
        ensures
            (final(self)@, res(r)) == spec_select_last_window(old(self)@, opt_view(session_name)),
    {
        let i = self.find_session_index(session_name)?;
        let target = match self.sessions[i].last_window_id {
            Some(id) => id,
            None => self.sessions[i].active_window_id,
        };
        let j = match position_window_id(&self.sessions[i].windows, target) {
            Some(j) => j,
            None => {
                return Err(StateError::WindowNotFound(u64_to_string(target)));
            },
        };
        proof {
            lemma_first_index(old(self)@.sessions[i as int].windows, window_with_id(target));
        }
        Ok(self.select_window_at(i, j))
    }

    /// Opens a new window with one shell pane in the session and makes it
    /// active.
    pub fn create_window(&mut self, session_name: Option<&str>, window_name: Option<String>) -> (r:
        Result<(Session, Window), StateError>)
        requires
            old(self)@.next_window_id < u64::MAX,
            old(self)@.next_pane_id < u64::MAX,
        ensures
            (final(self)@, res(r)) == spec_create_window(old(self)@, opt_view(session_name), window_name.deep_view()),
    {
        let i = self.find_session_index(session_name)?;
        let pane = Pane {
            id: self.next_pane_id,
            title: lit("shell"),
            last_input: None,
            last_output: None,
            rows: 0,
            cols: 0,
            floating: false,
        };
        self.next_pane_id = self.next_pane_id + 1;
        let pane_id = pane.id;
        let name = match window_name {
            Some(n) => n,
            None => usize_to_string(self.sessions[i].windows.len()),
        };
        let window = Window {
            id: self.next_window_id,
            name,
            active_pane_id: pane_id,
            last_pane_id: None,
            layout: WindowLayout::Horizontal,
            layout_tree: Some(SplitNode::Leaf { pane_id }),
            current_layout: PresetLayout::EvenHorizontal,
            panes: vec![pane],
        };
        self.next_window_id = self.next_window_id + 1;
        proof {
            assert(window@.panes =~= seq![window.panes@[0]@]);
        }
        let window_id = window.id;
        set_active_window(&mut self.sessions[i], window_id);
        self.sessions[i].windows.push(window.clone());
        proof {
            let o = old(self)@;
            let sv = o.sessions[i as int];
            let sv2 = activate_window(SessionView { windows: sv.windows.push(window@), ..sv }, window_id);
            assert(self@.sessions[i as int].windows =~= sv2.windows);
            assert(self@.sessions =~= o.sessions.update(i as int, sv2));
        }
        Ok((self.sessions[i].clone(), window))
    }

    /// Gives every pane of the targeted window the size `rows` by `cols`
    /// (at least one of each).
    pub fn resize_window(
        &mut self,
        session_name: Option<&str>,
        window_selector: Option<&str>,
        rows: u16,
        cols: u16,
    ) -> (r: Result<(Session, Window, Vec<Pane>), StateError>)
        ensures
            ({
                let (t, v) = spec_resize_window(old(self)@, opt_view(session_name), opt_view(window_selector), rows, cols);
                &&& final(self)@ == t
                &&& match (r, v) {
                    (Ok((a, b, c)), Ok((x, y, z))) => a@ == x && b@ == y && panes_view(c@) == z,
                    (Err(e), Err(ev)) => e@ == ev,
                    _ => false,
                }
            }),
    {
        let (i, j) = self.locate_window(session_name, window_selector, true)?;
        let rows = if rows == 0 { 1u16 } else { rows };
        let cols = if cols == 0 { 1u16 } else { cols };
        let ghost w0 = self@.sessions[i as int].windows[j as int];
        let mut panes: Vec<Pane> = Vec::new();
        std::mem::swap(&mut panes, &mut self.sessions[i].windows[j].panes);
        let ghost p0 = panes_view(panes@);
        assert(p0 == w0.panes);
        let mut k: usize = 0;
        while k < panes.len()
            invariant
                k <= panes.len(),
                panes@.len() == p0.len(),
                forall|z: int| 0 <= z < k ==> #[trigger] panes@[z]@ == sized(rows, cols)(p0[z]),
                forall|z: int| k <= z < p0.len() ==> #[trigger] panes@[z]@ == p0[z],
            decreases p0.len() - k,
        {
            let ghost before = panes@[k as int]@;
            assert(before == p0[k as int]);
            panes[k].rows = rows;
            panes[k].cols = cols;
            assert(panes@[k as int]@ == sized(rows, cols)(before));
            k = k + 1;
        }
        self.sessions[i].windows[j].panes = panes;
        proof {
            let o = old(self)@;
            let w2 = WindowView { panes: w0.panes.map_values(sized(rows, cols)), ..w0 };
            assert(self@.sessions[i as int].windows[j as int].panes =~= w2.panes);
            assert(self@.sessions[i as int].windows =~= o.sessions[i as int].windows.update(j as int, w2));
            assert(self@.sessions =~= put_window(o, i as int, j as int, w2).sessions);
        }
        let (a, b) = self.window_snapshot(i, j);
        let c = clone_panes(&self.sessions[i].windows[j].panes);
        Ok((a, b, c))
    }
}

/// The window's active pane, or its first pane.
fn active_pane_or_first(w: &Window) -> (r: Pane)
    requires
        w.panes.len() > 0,
    ensures
        r@ == active_or_first(w@),
{
    proof {
        lemma_first_index(w@.panes, pane_with_id(w.active_pane_id));
    }
    match position_pane_id(&w.panes, w.active_pane_id) {
        Some(x) => w.panes[x].clone(),
        None => w.panes[0].clone(),
    }
}

impl ServerState {
    /// Splits the targeted window: a new pane joins it next to its active
    /// pane and becomes active.
    pub fn split_window(
        &mut self,
        session_name: Option<&str>,
        window_selector: Option<&str>,
        title: Option<String>,
        layout: WindowLayout,
    ) -> (r: Result<(Session, Window, Pane), StateError>)
        requires
            old(self)@.next_pane_id < u64::MAX,
        ensures
            (final(self)@, res(r)) == spec_split_window(
                old(self)@,
                opt_view(session_name),
                opt_view(window_selector),
                title.deep_view(),
                layout,
            ),
    {
        let (i, j) = self.locate_window(session_name, window_selector, true)?;
        let title = match title {
            Some(t) => t,
            None => lit("shell"),
        };
        let pane = Pane {
            id: self.next_pane_id,
            title,
            last_input: None,
            last_output: None,
            rows: 0,
            cols: 0,
            floating: false,
        };
        self.next_pane_id = self.next_pane_id + 1;
        let pane_id = pane.id;
        let target = self.sessions[i].windows[j].active_pane_id;
        self.sessions[i].windows[j].panes.push(pane.clone());
        self.sessions[i].windows[j].layout = layout;
        let mut tree: Option<SplitNode> = None;
        std::mem::swap(&mut tree, &mut self.sessions[i].windows[j].layout_tree);
        let new_tree = match tree {
            Some(mut t) => {
                split_leaf(&mut t, target, pane_id, layout);
                t
            },
            None => SplitNode::Split {
                orientation: layout,
                split_ratio: default_split_ratio(),
                first: Box::new(SplitNode::Leaf { pane_id: target }),
                second: Box::new(SplitNode::Leaf { pane_id }),
            },
        };
        self.sessions[i].windows[j].layout_tree = Some(new_tree);
        set_active_pane(&mut self.sessions[i].windows[j], pane_id);
        let window = self.sessions[i].windows[j].clone();
        set_active_window(&mut self.sessions[i], window.id);
        proof {
            let o = old(self)@;
            let sv = o.sessions[i as int];
            let w = sv.windows[j as int];
            let tr = match w.layout_tree {
                Some(t) => spec_split_leaf(t, target, pane_id, layout).0,
                None => split_of(layout, target, pane_id),
            };
            let w2 = activate_pane(
                WindowView { panes: w.panes.push(pane@), layout, layout_tree: Some(tr), ..w },
                pane_id,
            );
            assert(self@.sessions[i as int].windows[j as int].panes =~= w2.panes);
            assert(self@.sessions[i as int].windows[j as int] == w2);
            let sv2 = activate_window(with_window(sv, j as int, w2), w2.id);
            assert(self@.sessions[i as int].windows =~= sv2.windows);
            assert(self@.sessions =~= o.sessions.update(i as int, sv2));
        }
        Ok((self.sessions[i].clone(), window, pane))
    }

    /// Takes pane `k` out of window `j` of session `i`.
    fn detach_pane_at(&mut self, i: usize, j: usize, k: usize) -> (r: Pane)
        requires
            pane_at(old(self)@, i as int, j as int, k as int),
            old(self)@.sessions[i as int].windows[j as int].panes.len() >= 2,
        ensures
            final(self)@ == put_window(
                old(self)@,
                i as int,
                j as int,
                detach_pane(old(self)@.sessions[i as int].windows[j as int], k as int),
            ),
            r@ == old(self)@.sessions[i as int].windows[j as int].panes[k as int],
    {
        let pane = self.sessions[i].windows[j].panes.remove(k);
        let mut tree: Option<SplitNode> = None;
        std::mem::swap(&mut tree, &mut self.sessions[i].windows[j].layout_tree);
        let new_tree = match tree {
            Some(t) => remove_leaf(t, pane.id),
            None => None,
        };
        self.sessions[i].windows[j].layout_tree = new_tree;
        proof {
            let w = old(self)@.sessions[i as int].windows[j as int];
            assert(self@.sessions[i as int].windows[j as int].panes =~= w.panes.remove(k as int));
        }
        if self.sessions[i].windows[j].active_pane_id == pane.id {
            let first = self.sessions[i].windows[j].panes[0].id;
            set_active_pane(&mut self.sessions[i].windows[j], first);
        }
        proof {
            let o = old(self)@;
            let w2 = detach_pane(o.sessions[i as int].windows[j as int], k as int);
            assert(self@.sessions[i as int].windows[j as int].panes =~= w2.panes);
            assert(self@.sessions[i as int].windows =~= o.sessions[i as int].windows.update(j as int, w2));
            assert(self@.sessions =~= put_window(o, i as int, j as int, w2).sessions);
        }
        pane
    }

    /// Closes the targeted pane, unless it is the last of its window.
    pub fn kill_pane(
        &mut self,
        session_name: Option<&str>,
        window_selector: Option<&str>,
        pane_selector: Option<&str>,
    ) -> (r: Result<(Session, Window, Pane), StateError>)
        ensures
            (final(self)@, res(r)) == spec_kill_pane(old(self)@, opt_view(session_name), opt_view(window_selector), opt_view(pane_selector)),
    {
        let (i, j) = self.locate_window(session_name, window_selector, true)?;
        if self.sessions[i].windows[j].panes.len() == 1 {
            return Err(StateError::LastPaneInWindow(self.sessions[i].windows[j].name.clone()));
        }
        let k = find_pane_index_in_window(&self.sessions[i].windows[j], pane_selector, true)?;
        let removed = self.detach_pane_at(i, j, k);
        let (a, b) = self.window_snapshot(i, j);
        Ok((a, b, removed))
    }

    /// Moves the targeted pane out of its window into a new window of its
    /// own, which becomes active.
    pub fn break_pane(
        &mut self,
        session_name: Option<&str>,
        src_window_selector: Option<&str>,
        src_pane_selector: Option<&str>,
        new_window_name: Option<String>,
    ) -> (r: Result<(Session, Window, Window, Pane), StateError>)
        requires
            old(self)@.next_window_id < u64::MAX,
        ensures
            (final(self)@, res(r)) == spec_break_pane(
                old(self)@,
                opt_view(session_name),
                opt_view(src_window_selector),
                opt_view(src_pane_selector),
                new_window_name.deep_view(),
            ),
    {
        let (i, j) = self.locate_window(session_name, src_window_selector, true)?;
        if self.sessions[i].windows[j].panes.len() == 1 {
            return Err(StateError::LastPaneInWindow(self.sessions[i].windows[j].name.clone()));
        }
        let k = find_pane_index_in_window(&self.sessions[i].windows[j], src_pane_selector, true)?;
        let pane = self.detach_pane_at(i, j, k);
        let ghost mid = self@;
        assert(window_at(self@, i as int, j as int));
        let src_snapshot = self.sessions[i].windows[j].clone();
        assert(src_snapshot@ == mid.sessions[i as int].windows[j as int]);
        let name = match new_window_name {
            Some(n) => n,
            None => usize_to_string(self.sessions[i].windows.len()),
        };
        let pane_id = pane.id;
        let new_window = Window {
            id: self.next_window_id,
            name,
            active_pane_id: pane_id,
            last_pane_id: None,
            layout: WindowLayout::Horizontal,
            layout_tree: Some(SplitNode::Leaf { pane_id }),
            current_layout: PresetLayout::EvenHorizontal,
            panes: vec![pane.clone()],
        };
        self.next_window_id = self.next_window_id + 1;
        proof {
            assert(new_window@.panes =~= seq![pane@]);
        }
        self.sessions[i].windows.push(new_window.clone());
        set_active_window(&mut self.sessions[i], new_window.id);
        proof {
            let o = old(self)@;
            let sv = o.sessions[i as int];
            let w2 = detach_pane(sv.windows[j as int], k as int);
            let sv2 = activate_window(
                SessionView { windows: sv.windows.update(j as int, w2).push(new_window@), ..sv },
                new_window.id,
            );
            assert(self@.sessions[i as int].windows =~= sv2.windows);
            assert(self@.sessions[i as int].id == sv2.id);
            assert(self@.sessions[i as int].name == sv2.name);
            assert(self@.sessions[i as int].active_window_id == sv2.active_window_id);
            assert(self@.sessions[i as int].last_window_id == sv2.last_window_id);
            assert(self@.sessions[i as int] == sv2);
            assert(self@.sessions =~= mid.sessions.update(i as int, sv2));
            assert(mid.sessions.update(i as int, sv2) =~= o.sessions.update(i as int, sv2));
            assert(src_snapshot@ == w2);
            assert(pane@ == sv.windows[j as int].panes[k as int]);
            assert(new_window@.name == match new_window_name.deep_view() {
                Some(n) => n,
                None => decimal(sv.windows.len()),
            });
            assert(new_window@ == fresh_window(o.next_window_id, new_window@.name, pane@));
        }
        Ok((self.sessions[i].clone(), src_snapshot, new_window, pane))
    }

    /// Swaps two panes' places in the targeted window's tree.
    pub fn swap_panes(
        &mut self,
        session_name: Option<&str>,
        window_selector: Option<&str>,
        src_pane_selector: Option<&str>,
        dst_pane_selector: Option<&str>,
    ) -> (r: Result<(Session, Window, Pane), StateError>)
        ensures
            (final(self)@, res(r)) == spec_swap_panes(
                old(self)@,
                opt_view(session_name),
                opt_view(window_selector),
                opt_view(src_pane_selector),
                opt_view(dst_pane_selector),
            ),
    {
        let (i, j) = self.locate_window(session_name, window_selector, true)?;
        let n = self.sessions[i].windows[j].panes.len();
        if n <= 1 {
            if n == 0 {
                return Err(StateError::NoPanes(self.sessions[i].windows[j].name.clone()));
            }
            let (a, b) = self.window_snapshot(i, j);
            return Ok((a, b, self.sessions[i].windows[j].panes[0].clone()));
        }
        let src = find_pane_index_in_window(&self.sessions[i].windows[j], src_pane_selector, true)?;
        let dst = match dst_pane_selector {
            Some(selector) => find_pane_index_in_window(&self.sessions[i].windows[j], Some(selector), false)?,
            None => (src + 1) % n,
        };
        if src != dst {
            let a = self.sessions[i].windows[j].panes[src].id;
            let b = self.sessions[i].windows[j].panes[dst].id;
            let mut tree: Option<SplitNode> = None;
            std::mem::swap(&mut tree, &mut self.sessions[i].windows[j].layout_tree);
            let new_tree = match tree {
                Some(mut t) => {
                    swap_leaf_panes(&mut t, a, b);
                    Some(t)
                },
                None => None,
            };
            self.sessions[i].windows[j].layout_tree = new_tree;
        }
        proof {
            let o = old(self)@;
            let w = o.sessions[i as int].windows[j as int];
            let w2 = if src != dst {
                match w.layout_tree {
                    Some(t) => WindowView {
                        layout_tree: Some(spec_swap_ids(t, w.panes[src as int].id, w.panes[dst as int].id)),
                        ..w
                    },
                    None => w,
                }
            } else {
                w
            };
            assert(self@.sessions[i as int].windows[j as int].panes =~= w2.panes);
            assert(self@.sessions[i as int].windows =~= o.sessions[i as int].windows.update(j as int, w2));
            assert(self@.sessions =~= put_window(o, i as int, j as int, w2).sessions);
        }
        let (a, b) = self.window_snapshot(i, j);
        let active = active_pane_or_first(&self.sessions[i].windows[j]);
        Ok((a, b, active))
    }

    /// Moves every pane one place along the tree's leaves (or along the
    /// pane list when there is no tree).
    pub fn rotate_window(
        &mut self,
        session_name: Option<&str>,
        window_selector: Option<&str>,
        upward: bool,
    ) -> (r: Result<(Session, Window, Pane), StateError>)
        ensures
            (final(self)@, res(r)) == spec_rotate_window(old(self)@, opt_view(session_name), opt_view(window_selector), upward),
    {
        let (i, j) = self.locate_window(session_name, window_selector, true)?;
        if self.sessions[i].windows[j].panes.len() > 1 {
            let mut tree: Option<SplitNode> = None;
            std::mem::swap(&mut tree, &mut self.sessions[i].windows[j].layout_tree);
            match tree {
                Some(mut t) => {
                    let mut ids: Vec<u64> = Vec::new();
                    collect_leaf_ids(&t, &mut ids);
                    assert(ids@ =~= leaves(t));
                    if ids.len() > 1 {
                        if upward {
                            let first = ids.remove(0);
                            ids.push(first);
                        } else {
                            let last = ids.remove(ids.len() - 1);
                            ids.insert(0, last);
                        }
                        proof {
                            assert(ids@ =~= rotated(leaves(t), upward));
                        }
                        let mut pos: usize = 0;
                        assign_leaf_ids(&mut t, &ids, &mut pos);
                    }
                    self.sessions[i].windows[j].layout_tree = Some(t);
                },
                None => {
                    let mut panes: Vec<Pane> = Vec::new();
                    std::mem::swap(&mut panes, &mut self.sessions[i].windows[j].panes);
                    let ghost pv = panes_view(panes@);
                    if upward {
                        let first = panes.remove(0);
                        panes.push(first);
                    } else {
                        let last = panes.remove(panes.len() - 1);
                        panes.insert(0, last);
                    }
                    proof {
                        assert(panes_view(panes@) =~= rotated(pv, upward));
                    }
                    self.sessions[i].windows[j].panes = panes;
                },
            }
        }
        proof {
            let o = old(self)@;
            let w = o.sessions[i as int].windows[j as int];
            let w2 = if w.panes.len() > 1 {
                match w.layout_tree {
                    Some(t) => if leaves(t).len() > 1 {
                        WindowView { layout_tree: Some(spec_assign(t, rotated(leaves(t), upward), 0).0), ..w }
                    } else {
                        w
                    },
                    None => WindowView { panes: rotated(w.panes, upward), ..w },
                }
            } else {
                w
            };
            assert(self@.sessions[i as int].windows[j as int].panes =~= w2.panes);
            assert(self@.sessions[i as int].windows =~= o.sessions[i as int].windows.update(j as int, w2));
            assert(self@.sessions =~= put_window(o, i as int, j as int, w2).sessions);
        }
        if self.sessions[i].windows[j].panes.len() == 0 {
            return Err(StateError::NoPanes(self.sessions[i].windows[j].name.clone()));
        }
        let (a, b) = self.window_snapshot(i, j);
        let active = active_pane_or_first(&self.sessions[i].windows[j]);
        Ok((a, b, active))
    }
}

impl ServerState {
    /// Moves a pane from one window of a session into another.
    pub fn join_pane(
        &mut self,
        session_name: Option<&str>,
        src_window_selector: Option<&str>,
        src_pane_selector: Option<&str>,
        dst_window_selector: Option<&str>,
        dst_pane_selector: Option<&str>,
    ) -> (r: Result<(Session, Window, Window, Pane), StateError>)
        ensures
            (final(self)@, res(r)) == spec_join_pane(
                old(self)@,
                opt_view(session_name),
                opt_view(src_window_selector),
                opt_view(src_pane_selector),
                opt_view(dst_window_selector),
                opt_view(dst_pane_selector),
            ),
    {
        let i = self.find_session_index(session_name)?;
        let sj = find_window_index_in_session(&self.sessions[i], src_window_selector, true)?;
        let dj = find_window_index_in_session(&self.sessions[i], dst_window_selector, true)?;
        if sj == dj {
            return Err(StateError::WindowNotFound(lit("join-pane source and destination must differ")));
        }
        let k = find_pane_index_in_window(&self.sessions[i].windows[sj], src_pane_selector, true)?;
        if self.sessions[i].windows[sj].panes.len() == 1 {
            return Err(StateError::LastPaneInWindow(self.sessions[i].windows[sj].name.clone()));
        }
        let pane = self.detach_pane_at(i, sj, k);
        let ghost mid = self@;
        assert(window_at(self@, i as int, dj as int));
        assert(self@.sessions[i as int].windows[dj as int] == old(self)@.sessions[i as int].windows[dj as int]);
        let n = self.sessions[i].windows[dj].panes.len();
        let (at, target) = match dst_pane_selector {
            Some(selector) => {
                let x = find_pane_index_in_window(&self.sessions[i].windows[dj], Some(selector), false)?;
                (x, self.sessions[i].windows[dj].panes[x].id)
            },
            None => (n, self.sessions[i].windows[dj].active_pane_id),
        };
        let pane_id = pane.id;
        self.sessions[i].windows[dj].panes.insert(at, pane.clone());
        let orientation = self.sessions[i].windows[dj].layout;
        let mut tree: Option<SplitNode> = None;
        std::mem::swap(&mut tree, &mut self.sessions[i].windows[dj].layout_tree);
        let new_tree = match tree {
            Some(mut t) => {
                split_leaf(&mut t, target, pane_id, orientation);
                t
            },
            None => SplitNode::Split {
                orientation,
                split_ratio: default_split_ratio(),
                first: Box::new(SplitNode::Leaf { pane_id: target }),
                second: Box::new(SplitNode::Leaf { pane_id }),
            },
        };
        self.sessions[i].windows[dj].layout_tree = Some(new_tree);
        set_active_pane(&mut self.sessions[i].windows[dj], pane_id);
        assert(self@.sessions[i as int].windows[sj as int] == mid.sessions[i as int].windows[sj as int]);
        let src_snapshot = self.sessions[i].windows[sj].clone();
        let dst_snapshot = self.sessions[i].windows[dj].clone();
        set_active_window(&mut self.sessions[i], dst_snapshot.id);
        proof {
            let o = old(self)@;
            let sv = o.sessions[i as int];
            let src2 = detach_pane(sv.windows[sj as int], k as int);
            let dst = sv.windows[dj as int];
            let tr = match dst.layout_tree {
                Some(t) => spec_split_leaf(t, target, pane_id, dst.layout).0,
                None => split_of(dst.layout, target, pane_id),
            };
            let dst2 = activate_pane(
                WindowView { panes: dst.panes.insert(at as int, pane@), layout_tree: Some(tr), ..dst },
                pane_id,
            );
            assert(self@.sessions[i as int].windows[dj as int].panes =~= dst2.panes);
            assert(self@.sessions[i as int].windows[dj as int] == dst2);
            assert(src_snapshot@ == src2);
            let sv2 = activate_window(
                SessionView { windows: sv.windows.update(sj as int, src2).update(dj as int, dst2), ..sv },
                dst2.id,
            );
            assert(self@.sessions[i as int].windows =~= sv2.windows);
            assert(self@.sessions[i as int] == sv2);
            assert(self@.sessions =~= mid.sessions.update(i as int, sv2));
            assert(mid.sessions.update(i as int, sv2) =~= o.sessions.update(i as int, sv2));
        }
        Ok((self.sessions[i].clone(), src_snapshot, dst_snapshot, pane))
    }

    /// Whether a preset layout can be applied to the targeted window.
    pub fn layout_fits(&self, session_name: Option<&str>, window_selector: Option<&str>) -> (r: bool)
        ensures
            r == layout_fits(self@, opt_view(session_name), opt_view(window_selector)),
    {
        match self.locate_window(session_name, window_selector, true) {
            Ok((i, j)) => self.sessions[i].windows[j].panes.len() < 65536,
            Err(_) => true,
        }
    }

    /// Rebuilds the targeted window's tree from a preset layout.
    pub fn apply_layout(
        &mut self,
        session_name: Option<&str>,
        window_selector: Option<&str>,
        layout: PresetLayout,
    ) -> (r: Result<(Session, Window), StateError>)
        requires
            layout_fits(old(self)@, opt_view(session_name), opt_view(window_selector)),
        ensures
            (final(self)@, res(r)) == spec_apply_layout(old(self)@, opt_view(session_name), opt_view(window_selector), layout),
    {
        let (i, j) = self.locate_window(session_name, window_selector, true)?;
        let ghost w0 = self@.sessions[i as int].windows[j as int];
        let n = self.sessions[i].windows[j].panes.len();
        if n == 0 {
            return Err(StateError::NoPanes(self.sessions[i].windows[j].name.clone()));
        }
        let mut ids: Vec<u64> = Vec::new();
        let mut x: usize = 0;
        while x < n
            invariant
                x <= n,
                n == self.sessions[i as int].windows[j as int].panes.len(),
                window_at(self@, i as int, j as int),
                w0 == self@.sessions[i as int].windows[j as int],
                ids@ == ids_of(w0.panes).take(x as int),
            decreases n - x,
        {
            ids.push(self.sessions[i].windows[j].panes[x].id);
            proof {
                assert(ids@ =~= ids_of(w0.panes).take(x + 1));
            }
            x = x + 1;
        }
        proof {
            assert(ids@ =~= ids_of(w0.panes));
        }
        let (orientation, tree) = build_preset_layout(layout, &ids);
        self.sessions[i].windows[j].layout = orientation;
        self.sessions[i].windows[j].layout_tree = Some(tree);
        let mut panes: Vec<Pane> = Vec::new();
        std::mem::swap(&mut panes, &mut self.sessions[i].windows[j].panes);
        let ghost p0 = panes_view(panes@);
        assert(p0 == w0.panes);
        let mut k: usize = 0;
        while k < panes.len()
            invariant
                k <= panes.len(),
                panes@.len() == p0.len(),
                forall|z: int| 0 <= z < k ==> #[trigger] panes@[z]@ == sized(0, 0)(p0[z]),
                forall|z: int| k <= z < p0.len() ==> #[trigger] panes@[z]@ == p0[z],
            decreases p0.len() - k,
        {
            let ghost before = panes@[k as int]@;
            assert(before == p0[k as int]);
            panes[k].rows = 0;
            panes[k].cols = 0;
            assert(panes@[k as int]@ == sized(0, 0)(before));
            k = k + 1;
        }
        self.sessions[i].windows[j].panes = panes;
        proof {
            let o = old(self)@;
            let (orient, tr) = spec_build_preset(layout, ids_of(w0.panes));
            let w2 = WindowView {
                layout: orient,
                layout_tree: Some(tr),
                panes: w0.panes.map_values(sized(0, 0)),
                ..w0
            };
            assert(self@.sessions[i as int].windows[j as int].panes =~= w2.panes);
            assert(self@.sessions[i as int].windows =~= o.sessions[i as int].windows.update(j as int, w2));
            assert(self@.sessions =~= put_window(o, i as int, j as int, w2).sessions);
        }
        Ok(self.window_snapshot(i, j))
    }

    /// Applies the preset after (`forward`) or before the window's current
    /// one, and records it as current.
    pub fn cycle_layout(
        &mut self,
        session_name: Option<&str>,
        window_selector: Option<&str>,
        forward: bool,
    ) -> (r: Result<(Session, Window, PresetLayout), StateError>)
        requires
            layout_fits(old(self)@, opt_view(session_name), opt_view(window_selector)),
        ensures
            ({
                let (t, v) = spec_cycle_layout(old(self)@, opt_view(session_name), opt_view(window_selector), forward);
                &&& final(self)@ == t
                &&& match (r, v) {
                    (Ok((a, b, c)), Ok((x, y, z))) => a@ == x && b@ == y && c == z,
                    (Err(e), Err(ev)) => e@ == ev,
                    _ => false,
                }
            }),
    {
        let (i, j) = self.locate_window(session_name, window_selector, true)?;
        let idx: usize = match self.sessions[i].windows[j].current_layout {
            PresetLayout::EvenHorizontal => 0,
            PresetLayout::EvenVertical => 1,
            PresetLayout::MainHorizontal => 2,
            PresetLayout::MainVertical => 3,
            PresetLayout::Tiled => 4,
        };
        let n: usize = if forward {
            (idx + 1) % 5
        } else {
            (idx + 4) % 5
        };
        let next = if n == 0 {
            PresetLayout::EvenHorizontal
        } else if n == 1 {
            PresetLayout::EvenVertical
        } else if n == 2 {
            PresetLayout::MainHorizontal
        } else if n == 3 {
            PresetLayout::MainVertical
        } else {
            PresetLayout::Tiled
        };
        assert(next == next_preset(old(self)@.sessions[i as int].windows[j as int].current_layout, forward));
        let (session, _w) = self.apply_layout(session_name, window_selector, next)?;
        let ghost t = self@;
        let (i2, j2) = self.locate_window(Some(session.name.as_str()), window_selector, true)?;
        self.sessions[i2].windows[j2].current_layout = next;
        proof {
            let w2 = WindowView { current_layout: next, ..t.sessions[i2 as int].windows[j2 as int] };
            assert(self@.sessions[i2 as int].windows[j2 as int].panes =~= w2.panes);
            assert(self@.sessions[i2 as int].windows =~= t.sessions[i2 as int].windows.update(j2 as int, w2));
            assert(self@.sessions =~= put_window(t, i2 as int, j2 as int, w2).sessions);
        }
        let (a, b) = self.window_snapshot(i2, j2);
        Ok((a, b, next))
    }
}

/// The largest pane extent of a window, or `fallback` without panes, and
/// at least one.
fn window_extent_exec(panes: &Vec<Pane>, rows: bool, fallback: usize) -> (r: usize)
    requires
        1 <= fallback <= 65535,
    ensures
        r as int == window_extent(panes_view(panes@), rows, fallback as int),
        1 <= r <= 65535,
{
    let ghost pv = panes_view(panes@);
    if panes.len() == 0 {
        return fallback;
    }
    let mut most: usize = 0;
    let mut x: usize = 0;
    while x < panes.len()
        invariant
            x <= panes.len(),
            pv == panes_view(panes@),
            most as int == most_cells(pv.take(x as int), rows),
            most <= 65535,
        decreases panes.len() - x,
    {
        let v: usize = if rows {
            panes[x].rows as usize
        } else {
            panes[x].cols as usize
        };
        if v > most {
            most = v;
        }
        proof {
            assert(pv.take(x + 1).drop_last() =~= pv.take(x as int));
        }
        x = x + 1;
    }
    proof {
        assert(pv.take(x as int) =~= pv);
    }
    if most >= 1 {
        most
    } else {
        1
    }
}

impl ServerState {
    /// Whether `resize_pane` on the targeted pane stays within `i32`.
    pub fn resize_fits(
        &self,
        session_name: Option<&str>,
        window_selector: Option<&str>,
        pane_selector: Option<&str>,
    ) -> (r: bool)
        ensures
            r == resize_fits(self@, opt_view(session_name), opt_view(window_selector), opt_view(pane_selector)),
    {
        match self.locate_pane(session_name, window_selector, pane_selector, true) {
            Ok((i, j, _k)) => match &self.sessions[i].windows[j].layout_tree {
                Some(t) => tree_resizable_exec(t),
                None => true,
            },
            Err(_) => true,
        }
    }

    /// Moves the border next to the targeted pane by `amount` cells.
    pub fn resize_pane(
        &mut self,
        session_name: Option<&str>,
        window_selector: Option<&str>,
        pane_selector: Option<&str>,
        direction: ResizeDirection,
        amount: u16,
    ) -> (r: Result<(Session, Window, Pane), StateError>)
        requires
            resize_fits(old(self)@, opt_view(session_name), opt_view(window_selector), opt_view(pane_selector)),
        ensures
            (final(self)@, res(r)) == spec_resize_pane(
                old(self)@,
                opt_view(session_name),
                opt_view(window_selector),
                opt_view(pane_selector),
                direction,
                amount,
            ),
    {
        let (i, j, k) = self.locate_pane(session_name, window_selector, pane_selector, true)?;
        let pane_id = self.sessions[i].windows[j].panes[k].id;
        let delta: u16 = if amount == 0 {
            1
        } else {
            amount
        };
        let total_rows = window_extent_exec(&self.sessions[i].windows[j].panes, true, 40);
        let total_cols = window_extent_exec(&self.sessions[i].windows[j].panes, false, 120);
        let mut tree_resized = false;
        let mut tree: Option<SplitNode> = None;
        std::mem::swap(&mut tree, &mut self.sessions[i].windows[j].layout_tree);
        let ghost t0 = tree;
        let new_tree = match tree {
            Some(mut t) => {
                tree_resized = resize_split_for_pane(&mut t, pane_id, direction, delta, total_cols, total_rows);
                Some(t)
            },
            None => None,
        };
        self.sessions[i].windows[j].layout_tree = new_tree;
        proof {
            let o = old(self)@;
            let w = o.sessions[i as int].windows[j as int];
            if let Some(t) = w.layout_tree {
                law_resize_keeps_leaves(t, pane_id, direction, delta, total_cols as int, total_rows as int);
            }
            let w2 = WindowView { layout_tree: new_tree, ..w };
            assert(self@.sessions[i as int].windows[j as int].panes =~= w2.panes);
            assert(self@.sessions[i as int].windows =~= o.sessions[i as int].windows.update(j as int, w2));
            assert(self@.sessions =~= put_window(o, i as int, j as int, w2).sessions);
            if !tree_resized {
                assert(w2 == w);
                assert(o.sessions[i as int].windows.update(j as int, w) =~= o.sessions[i as int].windows);
                assert(o.sessions.update(i as int, o.sessions[i as int]) =~= o.sessions);
                assert(self@ == o);
            }
        }
        if !tree_resized {
            let vertical = direction == ResizeDirection::Up || direction == ResizeDirection::Down;
            if vertical && self.sessions[i].windows[j].panes.len() <= 1 {
                return Ok(self.pane_snapshot(i, j, k));
            }
            let d = delta as i32;
            match direction {
                ResizeDirection::Up | ResizeDirection::Down => {
                    let r0 = self.sessions[i].windows[j].panes[k].rows as i32;
                    let base: i32 = if r0 >= 10 { r0 } else { 10 };
                    let moved: i32 = if direction == ResizeDirection::Up { base - d } else { base + d };
                    let new_rows: i32 = if moved >= 3 { moved } else { 3 };
                    self.sessions[i].windows[j].panes[k].rows = new_rows as u16;
                },
                ResizeDirection::Left | ResizeDirection::Right => {
                    let c0 = self.sessions[i].windows[j].panes[k].cols as i32;
                    let base: i32 = if c0 >= 20 { c0 } else { 20 };
                    let moved: i32 = if direction == ResizeDirection::Left { base - d } else { base + d };
                    let new_cols: i32 = if moved >= 10 { moved } else { 10 };
                    self.sessions[i].windows[j].panes[k].cols = new_cols as u16;
                },
            }
            proof {
                let o = old(self)@;
                let p = hinted_size(o.sessions[i as int].windows[j as int].panes[k as int], direction, delta as int);
                assert(self@.sessions[i as int].windows[j as int].panes[k as int] == p);
                assert(self@.sessions[i as int].windows[j as int].panes =~= o.sessions[i as int].windows[j as int].panes.update(k as int, p));
                assert(self@.sessions[i as int].windows =~= o.sessions[i as int].windows.update(j as int, with_pane(o.sessions[i as int].windows[j as int], k as int, p)));
                assert(self@.sessions =~= put_pane(o, i as int, j as int, k as int, p).sessions);
            }
        }
        Ok(self.pane_snapshot(i, j, k))
    }
}

fn window_record_exec(sv: &Session, w: &Window) -> (r: WindowRecord)
    ensures
        r@ == window_record(sv@, w@),
{
    WindowRecord {
        session_id: sv.id,
        session_name: sv.name.clone(),
        window_id: w.id,
        window_name: w.name.clone(),
        pane_count: w.panes.len(),
        active: sv.active_window_id == w.id,
        layout: w.layout,
        layout_tree: clone_tree(&w.layout_tree),
    }
}

fn push_window_pane_records(out: &mut Vec<PaneRecord>, sv: &Session, w: &Window)
    ensures
        pane_records_view(final(out)@) == pane_records_view(old(out)@) + window_pane_records(sv@, w@),
{
    let ghost start = pane_records_view(out@);
    let mut k: usize = 0;
    while k < w.panes.len()
        invariant
            k <= w.panes.len(),
            pane_records_view(out@) == start + window_pane_records(sv@, w@).take(k as int),
        decreases w.panes.len() - k,
    {
        let p = &w.panes[k];
        let rec = PaneRecord {
            session_id: sv.id,
            session_name: sv.name.clone(),
            window_id: w.id,
            window_name: w.name.clone(),
            pane_id: p.id,
            pane_title: p.title.clone(),
            active: w.active_pane_id == p.id,
            last_input: clone_opt(&p.last_input),
            last_output: clone_opt(&p.last_output),
            rows: p.rows,
            cols: p.cols,
            floating: p.floating,
        };
        assert(rec@ == pane_record(sv@, w@, w@.panes[k as int]));
        assert(window_pane_records(sv@, w@)[k as int] == rec@);
        let ghost prev = pane_records_view(out@);
        out.push(rec);
        proof {
            let all = window_pane_records(sv@, w@);
            assert(pane_records_view(out@) =~= prev.push(rec@));
            assert(all.take(k + 1) =~= all.take(k as int).push(all[k as int]));
            assert(pane_records_view(out@) =~= start + all.take(k + 1));
        }
        k = k + 1;
    }
    proof {
        assert(window_pane_records(sv@, w@).take(k as int) =~= window_pane_records(sv@, w@));
    }
}

fn push_session_pane_records(out: &mut Vec<PaneRecord>, sv: &Session, window_selector: Option<&str>) -> (r:
    Result<(), StateError>)
    ensures
        match (r, session_pane_records(sv@, opt_view(window_selector))) {
            (Ok(_), Ok(x)) => pane_records_view(final(out)@) == pane_records_view(old(out)@) + x,
            (Err(e), Err(ev)) => e@ == ev,
            _ => false,
        },
{
    match window_selector {
        Some(selector) => {
            let j = find_window_index_in_session(sv, Some(selector), false)?;
            push_window_pane_records(out, sv, &sv.windows[j]);
            Ok(())
        },
        None => {
            let ghost before = pane_records_view(out@);
            let mut j: usize = 0;
            while j < sv.windows.len()
                invariant
                    j <= sv.windows.len(),
                    pane_records_view(out@) == before + windows_pane_records(sv@, sv@.windows.take(j as int)),
                decreases sv.windows.len() - j,
            {
                push_window_pane_records(out, sv, &sv.windows[j]);
                proof {
                    assert(sv@.windows.take(j + 1).drop_last() =~= sv@.windows.take(j as int));
                }
                j = j + 1;
            }
            proof {
                assert(sv@.windows.take(j as int) =~= sv@.windows);
            }
            Ok(())
        },
    }
}

impl ServerState {
    /// Records output for the first pane with the id `pane_id`; false when
    /// no pane has it.
    pub fn set_pane_output(&mut self, pane_id: u64, output: String) -> (r: bool)
        ensures
            (final(self)@, r) == spec_set_pane_output(old(self)@, pane_id, output@),
    {
        let ghost ss = self@.sessions;
        let n = self.sessions.len();
        let mut i: usize = 0;
        while i < n
            invariant
                n == self.sessions.len(),
                i <= self.sessions.len(),
                self@ == old(self)@,
                ss == self@.sessions,
                forall|x: int| 0 <= x < i ==> !session_has_pane(pane_id)(#[trigger] ss[x]),
            decreases self.sessions.len() - i,
        {
            let ghost ws = ss[i as int].windows;
            let mut j: usize = 0;
            while j < self.sessions[i].windows.len()
                invariant
                    i < self.sessions.len(),
                    j <= self.sessions[i as int].windows.len(),
                    self@ == old(self)@,
                    ss == self@.sessions,
                    ws == ss[i as int].windows,
                    n == self.sessions.len(),
                    forall|x: int| 0 <= x < i ==> !session_has_pane(pane_id)(#[trigger] ss[x]),
                    forall|y: int| 0 <= y < j ==> !window_has_pane(pane_id)(#[trigger] ws[y]),
                decreases self.sessions[i as int].windows.len() - j,
            {
                match position_pane_id(&self.sessions[i].windows[j].panes, pane_id) {
                    Some(k) => {
                        proof {
                            lemma_first_index_is(ws, window_has_pane(pane_id), j as int);
                            lemma_first_index_is(ss, session_has_pane(pane_id), i as int);
                            lemma_first_index(ws[j as int].panes, pane_with_id(pane_id));
                        }
                        self.sessions[i].windows[j].panes[k].last_output = Some(output);
                        proof {
                            let o = old(self)@;
                            let p = PaneView {
                                last_output: Some(output@),
                                ..o.sessions[i as int].windows[j as int].panes[k as int]
                            };
                            assert(self@.sessions[i as int].windows[j as int].panes =~= o.sessions[i as int].windows[j as int].panes.update(k as int, p));
                            assert(self@.sessions[i as int].windows =~= o.sessions[i as int].windows.update(j as int, with_pane(o.sessions[i as int].windows[j as int], k as int, p)));
                            assert(self@.sessions =~= put_pane(o, i as int, j as int, k as int, p).sessions);
                        }
                        return true;
                    },
                    None => {},
                }
                j = j + 1;
            }
            proof {
                lemma_first_index_none(ws, window_has_pane(pane_id));
            }
            i = i + 1;
        }
        proof {
            lemma_first_index_none(ss, session_has_pane(pane_id));
        }
        false
    }

    /// The sessions a listing covers, as a range of indexes: the one named,
    /// or all of them.
    fn session_refs(&self, session_name: Option<&str>) -> (r: Result<(usize, usize), StateError>)
        ensures
            match (r, sel_sessions(self@, opt_view(session_name))) {
                (Ok((a, b)), Ok(ss)) => a <= b <= self.sessions.len() && ss == self@.sessions.subrange(
                    a as int,
                    b as int,
                ),
                (Err(e), Err(ev)) => e@ == ev,
                _ => false,
            },
    {
        match session_name {
            Some(name) => match position_session_named(&self.sessions, name) {
                Some(i) => {
                    proof {
                        lemma_first_index(self@.sessions, session_named(name@));
                    }
                    assert(i < self.sessions.len());
                    proof {
                        assert(self@.sessions.subrange(i as int, i + 1) =~= seq![self@.sessions[i as int]]);
                    }
                    Ok((i, i + 1))
                },
                None => Err(StateError::SessionNotFound(owned(name))),
            },
            None => {
                if self.sessions.len() == 0 {
                    Err(StateError::NoSessions)
                } else {
                    proof {
                        assert(self@.sessions.subrange(0, self@.sessions.len() as int) =~= self@.sessions);
                    }
                    Ok((0, self.sessions.len()))
                }
            },
        }
    }

    /// One line per window of the sessions listed.
    pub fn list_windows(&self, session_name: Option<&str>) -> (r: Result<Vec<WindowRecord>, StateError>)
        ensures
            match (r, sel_sessions(self@, opt_view(session_name))) {
                (Ok(v), Ok(ss)) => window_records_view(v@) == window_records(ss),
                (Err(e), Err(ev)) => e@ == ev,
                _ => false,
            },
    {
        let (a, b) = self.session_refs(session_name)?;
        let ghost ss = self@.sessions.subrange(a as int, b as int);
        let mut out: Vec<WindowRecord> = Vec::new();
        let mut i: usize = a;
        while i < b
            invariant
                a <= i <= b <= self.sessions.len(),
                ss == self@.sessions.subrange(a as int, b as int),
                window_records_view(out@) == window_records(ss.take(i - a)),
            decreases b - i,
        {
            let ghost before = window_records_view(out@);
            let ghost sv = self@.sessions[i as int];
            let mut j: usize = 0;
            while j < self.sessions[i].windows.len()
                invariant
                    a <= i < b <= self.sessions.len(),
                    j <= self.sessions[i as int].windows.len(),
                    sv == self@.sessions[i as int],
                    window_records_view(out@) == before + session_window_records(sv).take(j as int),
                decreases self.sessions[i as int].windows.len() - j,
            {
                let rec = window_record_exec(&self.sessions[i], &self.sessions[i].windows[j]);
                assert(session_window_records(sv)[j as int] == rec@);
                let ghost prev = window_records_view(out@);
                out.push(rec);
                proof {
                    let all = session_window_records(sv);
                    assert(window_records_view(out@) =~= prev.push(rec@));
                    assert(all.take(j + 1) =~= all.take(j as int).push(all[j as int]));
                    assert(window_records_view(out@) =~= before + all.take(j + 1));
                }
                j = j + 1;
            }
            proof {
                assert(session_window_records(sv).take(j as int) =~= session_window_records(sv));
                assert(ss.take(i + 1 - a).drop_last() =~= ss.take(i - a));
                assert(ss.take(i + 1 - a).last() == sv);
            }
            i = i + 1;
        }
        proof {
            assert(ss.take(b - a) =~= ss);
        }
        Ok(out)
    }

    /// One line per pane of the sessions listed: of the window the selector
    /// names in each, or of all their windows.
    pub fn list_panes(&self, session_name: Option<&str>, window_selector: Option<&str>) -> (r: Result<
        Vec<PaneRecord>,
        StateError,
    >)
        ensures
            match (r, sel_sessions(self@, opt_view(session_name))) {
                (Ok(v), Ok(ss)) => pane_records(ss, opt_view(window_selector)) == Ok::<
                    Seq<PaneRecordView>,
                    StateErrorView,
                >(pane_records_view(v@)),
                (Err(e), Ok(ss)) => pane_records(ss, opt_view(window_selector)) == Err::<
                    Seq<PaneRecordView>,
                    StateErrorView,
                >(e@),
                (Err(e), Err(ev)) => e@ == ev,
                _ => false,
            },
    {
        let (a, b) = self.session_refs(session_name)?;
        let ghost ss = self@.sessions.subrange(a as int, b as int);
        let mut out: Vec<PaneRecord> = Vec::new();
        proof {
            assert(ss.take(0) =~= Seq::<SessionView>::empty());
            assert(pane_records_view(out@) =~= Seq::<PaneRecordView>::empty());
        }
        let mut i: usize = a;
        while i < b
            invariant
                a <= i <= b <= self.sessions.len(),
                ss == self@.sessions.subrange(a as int, b as int),
                sel_sessions(self@, opt_view(session_name)) == Ok::<Seq<SessionView>, StateErrorView>(ss),
                pane_records(ss.take(i - a), opt_view(window_selector)) == Ok::<
                    Seq<PaneRecordView>,
                    StateErrorView,
                >(pane_records_view(out@)),
            decreases b - i,
        {
            let ghost sv = self@.sessions[i as int];
            proof {
                assert(ss.take(i + 1 - a).drop_last() =~= ss.take(i - a));
                assert(ss.take(i + 1 - a).last() == sv);
            }
            match push_session_pane_records(&mut out, &self.sessions[i], window_selector) {
                Ok(()) => {},
                Err(e) => {
                    proof {
                        lemma_pane_records_err(ss, i - a, opt_view(window_selector), e@);
                    }
                    return Err(e);
                },
            }
            i = i + 1;
        }
        proof {
            assert(ss.take(b - a) =~= ss);
        }
        Ok(out)
    }
}

/// Once the listing of a prefix of the sessions fails, so does every longer
/// prefix, with the same error.
proof fn lemma_pane_records_err(ss: Seq<SessionView>, n: int, window_selector: Option<Seq<char>>, e: StateErrorView)
    requires
        0 <= n < ss.len(),
        pane_records(ss.take(n + 1), window_selector) == Err::<Seq<PaneRecordView>, StateErrorView>(e),
    ensures
        pane_records(ss, window_selector) == Err::<Seq<PaneRecordView>, StateErrorView>(e),
    decreases ss.len() - n,
{
    if n + 1 < ss.len() {
        assert(ss.take(n + 2).drop_last() =~= ss.take(n + 1));
        lemma_pane_records_err(ss, n + 1, window_selector, e);
    } else {
        assert(ss.take(n + 1) =~= ss);
    }
}

/// Whether a window's pane count and tree stay within what presets and
/// resizes compute with.
pub open spec fn window_fits(w: WindowView) -> bool {
    &&& w.panes.len() < 65536
    &&& match w.layout_tree {
        Some(t) => tree_resizable(t),
        None => true,
    }
}

/// The number of panes of some windows.
pub open spec fn pane_total(ws: Seq<WindowView>) -> nat
    decreases ws.len(),
{
    if ws.len() == 0 {
        0
    } else {
        pane_total(ws.drop_last()) + ws.last().panes.len()
    }
}

/// Whether ids are left, every window fits, and every session's pane count
/// fits a `usize`.
pub open spec fn server_fits(s: StateView) -> bool {
    &&& ids_left(s)
    &&& forall|i: int, j: int|
        0 <= i < s.sessions.len() && 0 <= j < s.sessions[i].windows.len() ==> #[trigger] window_fits(
            s.sessions[i].windows[j],
        )
    &&& forall|i: int| 0 <= i < s.sessions.len() ==> #[trigger] pane_total(s.sessions[i].windows) <= usize::MAX
}

/// Whether every session's pane count fits a `usize`.
pub open spec fn counts_fit(s: StateView) -> bool {
    forall|i: int| 0 <= i < s.sessions.len() ==> #[trigger] pane_total(s.sessions[i].windows) <= usize::MAX
}

/// The number of panes of a session, when it fits a `usize`.
pub fn session_pane_total(sv: &Session) -> (r: Option<usize>)
    ensures
        match r {
            Some(n) => n as nat == pane_total(sv@.windows),
            None => pane_total(sv@.windows) > usize::MAX,
        },
{
    let ghost ws = sv@.windows;
    let mut total: usize = 0;
    let mut j: usize = 0;
    while j < sv.windows.len()
        invariant
            j <= sv.windows.len(),
            ws == sv@.windows,
            total as nat == pane_total(ws.take(j as int)),
        decreases sv.windows.len() - j,
    {
        proof {
            assert(ws.take(j + 1).drop_last() =~= ws.take(j as int));
        }
        match total.checked_add(sv.windows[j].panes.len()) {
            Some(t) => {
                total = t;
            },
            None => {
                proof {
                    lemma_pane_total_grows(ws, j + 1);
                }
                return None;
            },
        }
        j = j + 1;
    }
    proof {
        assert(ws.take(j as int) =~= ws);
    }
    Some(total)
}

/// The pane count of all windows is at least that of the first `n`.
pub proof fn lemma_pane_total_grows(ws: Seq<WindowView>, n: int)
    requires
        0 <= n <= ws.len(),
    ensures
        pane_total(ws.take(n)) <= pane_total(ws),
    decreases ws.len() - n,
{
    if n < ws.len() {
        lemma_pane_total_grows(ws, n + 1);
        assert(ws.take(n + 1).drop_last() =~= ws.take(n));
    } else {
        assert(ws.take(n) =~= ws);
    }
}

/// When every window fits, so does every targeted one.
pub proof fn lemma_fits_targets(
    s: StateView,
    session_name: Option<Seq<char>>,
    window_selector: Option<Seq<char>>,
    pane_selector: Option<Seq<char>>,
)
    requires
        server_fits(s),
    ensures
        layout_fits(s, session_name, window_selector),
        resize_fits(s, session_name, window_selector, pane_selector),
{
    lemma_sel_session_bounds(s.sessions, session_name);
    if let Ok(i) = sel_session(s.sessions, session_name) {
        lemma_sel_bounds(s.sessions[i], window_selector, true);
        if let Ok(j) = sel_window(s.sessions[i], window_selector, true) {
            assert(window_fits(s.sessions[i].windows[j]));
        }
    }
}

impl ServerState {
    /// Whether ids are left and every window fits.
    pub fn fits(&self) -> (r: bool)
        ensures
            r == server_fits(self@),
    {
        if !self.ids_available() {
            return false;
        }
        let mut i: usize = 0;
        while i < self.sessions.len()
            invariant
                i <= self.sessions.len(),
                ids_left(self@),
                forall|x: int, y: int|
                    0 <= x < i && 0 <= y < self@.sessions[x].windows.len() ==> #[trigger] window_fits(
                        self@.sessions[x].windows[y],
                    ),
            decreases self.sessions.len() - i,
        {
            let mut j: usize = 0;
            while j < self.sessions[i].windows.len()
                invariant
                    i < self.sessions.len(),
                    j <= self.sessions[i as int].windows.len(),
                    ids_left(self@),
                    forall|x: int, y: int|
                        0 <= x < i && 0 <= y < self@.sessions[x].windows.len() ==> #[trigger] window_fits(
                            self@.sessions[x].windows[y],
                        ),
                    forall|y: int| 0 <= y < j ==> #[trigger] window_fits(self@.sessions[i as int].windows[y]),
                decreases self.sessions[i as int].windows.len() - j,
            {
                let w = &self.sessions[i].windows[j];
                let ok = w.panes.len() < 65536 && match &w.layout_tree {
                    Some(t) => tree_resizable_exec(t),
                    None => true,
                };
                if !ok {
                    proof {
                        assert(!window_fits(self@.sessions[i as int].windows[j as int]));
                    }
                    return false;
                }
                j = j + 1;
            }
            i = i + 1;
        }
        let mut k: usize = 0;
        while k < self.sessions.len()
            invariant
                k <= self.sessions.len(),
                forall|x: int| 0 <= x < k ==> #[trigger] pane_total(self@.sessions[x].windows) <= usize::MAX,
            decreases self.sessions.len() - k,
        {
            if session_pane_total(&self.sessions[k]).is_none() {
                proof {
                    assert(!(pane_total(self@.sessions[k as int].windows) <= usize::MAX));
                }
                return false;
            }
            k = k + 1;
        }
        true
    }

    /// Whether every session's pane count fits a `usize`.
    pub fn counts_fit(&self) -> (r: bool)
        ensures
            r == counts_fit(self@),
    {
        let mut k: usize = 0;
        while k < self.sessions.len()
            invariant
                k <= self.sessions.len(),
                forall|x: int| 0 <= x < k ==> #[trigger] pane_total(self@.sessions[x].windows) <= usize::MAX,
            decreases self.sessions.len() - k,
        {
            if session_pane_total(&self.sessions[k]).is_none() {
                proof {
                    assert(!(pane_total(self@.sessions[k as int].windows) <= usize::MAX));
                }
                return false;
            }
            k = k + 1;
        }
        true
    }
}

} // verus!
