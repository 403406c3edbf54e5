//! What the interactive client decides from the server's state as it last
//! saw it: which window and pane are active, what a prefixed key asks of
//! the server, what a key sends to a pane, and the bars it shows.
use vstd::prelude::*;
use crate::text::{
    first_index, lemma_first_index_is, lemma_first_index_none, decimal, u64_to_string, lit,
    opt_str, opt_view, str_eq, views_of, clone_opt, chars_of, push_char, append_str, concat2,
    parse_unsigned, parse_u64, trim, trim_exec, ascii_lower,
};
use crate::proto::{
    Request, RequestView, Response, ResponseView, ResizeDir, SplitOrientation, SessionInfo,
    SessionInfoView, WindowInfo, WindowInfoView, PaneInfo, PaneInfoView, session_infos_view,
    window_infos_view, pane_infos_view,
};

verus! {

/// What the client last fetched from the server.
pub struct UiSnapshot {
    pub attached_session: Option<String>,
    pub sessions: Vec<SessionInfo>,
    pub windows: Vec<WindowInfo>,
    pub panes: Vec<PaneInfo>,
}

/// What a snapshot holds.
pub struct SnapshotView {
    pub attached: Option<Seq<char>>,
    pub sessions: Seq<SessionInfoView>,
    pub windows: Seq<WindowInfoView>,
    pub panes: Seq<PaneInfoView>,
}

impl View for UiSnapshot {
    type V = SnapshotView;

    open spec fn view(&self) -> SnapshotView {
        SnapshotView {
            attached: self.attached_session.deep_view(),
            sessions: session_infos_view(self.sessions@),
            windows: window_infos_view(self.windows@),
            panes: pane_infos_view(self.panes@),
        }
    }
}

// ---------------------------------------------------------------------------
// The active window and pane
// ---------------------------------------------------------------------------

/// An active window of the attached session (of any session when none is
/// attached).
pub open spec fn active_in(attached: Option<Seq<char>>) -> spec_fn(WindowInfoView) -> bool {
    |w: WindowInfoView| w.active && (attached is None || attached->0 == w.session_name)
}

/// An active window.
pub open spec fn any_active() -> spec_fn(WindowInfoView) -> bool {
    |w: WindowInfoView| w.active
}

/// The window the client shows: the first active window of the attached
/// session, else the first active window at all.
pub open spec fn active_window(s: SnapshotView) -> Option<int> {
    match first_index(s.windows, active_in(s.attached)) {
        Some(i) => Some(i),
        None => first_index(s.windows, any_active()),
    }
}

/// The active pane of the window named `window` in session `session`.
pub open spec fn active_pane_of(session: Seq<char>, window: Seq<char>) -> spec_fn(PaneInfoView) -> bool {
    |p: PaneInfoView| p.active && p.session_name == session && p.window_name == window
}

/// The pane the client shows as active: the active pane of the shown window.
pub open spec fn active_pane(s: SnapshotView) -> Option<int> {
    match active_window(s) {
        None => None,
        Some(i) => first_index(s.panes, active_pane_of(s.windows[i].session_name, s.windows[i].window_name)),
    }
}

/// The session and window names of the shown window.
pub open spec fn active_window_target(s: SnapshotView) -> Option<(Seq<char>, Seq<char>)> {
    match active_window(s) {
        None => None,
        Some(i) => Some((s.windows[i].session_name, s.windows[i].window_name)),
    }
}

/// The session, window and pane id of the active pane.
pub open spec fn active_pane_target(s: SnapshotView) -> Option<(Seq<char>, Seq<char>, Seq<char>)> {
    match active_pane(s) {
        None => None,
        Some(k) => Some((s.panes[k].session_name, s.panes[k].window_name, decimal(s.panes[k].pane_id as nat))),
    }
}

fn find_window(windows: &Vec<WindowInfo>, attached: &Option<String>, any: bool) -> (r: Option<usize>)
    ensures
        ({
            let p = if any {
                any_active()
            } else {
                active_in(attached.deep_view())
            };
            match r {
                Some(i) => first_index(window_infos_view(windows@), p) == Some(i as int),
                None => first_index(window_infos_view(windows@), p) is None,
            }
        }),
{
    let ghost ws = window_infos_view(windows@);
    let ghost p = if any {
        any_active()
    } else {
        active_in(attached.deep_view())
    };
    let mut i: usize = 0;
    while i < windows.len()
        invariant
            i <= windows.len(),
            ws == window_infos_view(windows@),
            p == (if any {
                any_active()
            } else {
                active_in(attached.deep_view())
            }),
            forall|j: int| 0 <= j < i ==> !p(#[trigger] ws[j]),
        decreases windows.len() - i,
    {
        let w = &windows[i];
        let hit = w.active && (any || match attached {
            None => true,
            Some(a) => str_eq(a.as_str(), w.session_name.as_str()),
        });
        proof {
            assert(ws[i as int] == w@);
        }
        if hit {
            proof {
                lemma_first_index_is(ws, p, i as int);
            }
            return Some(i);
        }
        i = i + 1;
    }
    proof {
        lemma_first_index_none(ws, p);
    }
    None
}

pub(crate) fn active_window_index(s: &UiSnapshot) -> (r: Option<usize>)
    ensures
        match r {
            Some(i) => active_window(s@) == Some(i as int) && i < s.windows.len(),
            None => active_window(s@) is None,
        },
{
    match find_window(&s.windows, &s.attached_session, false) {
        Some(i) => {
            proof {
                crate::text::lemma_first_index(window_infos_view(s.windows@), active_in(s@.attached));
            }
            Some(i)
        },
        None => {
            let r = find_window(&s.windows, &s.attached_session, true);
            proof {
                crate::text::lemma_first_index(window_infos_view(s.windows@), any_active());
            }
            r
        },
    }
}

fn find_pane(panes: &Vec<PaneInfo>, session: &str, window: &str) -> (r: Option<usize>)
    ensures
        match r {
            Some(k) => first_index(pane_infos_view(panes@), active_pane_of(session@, window@)) == Some(k as int)
                && k < panes.len(),
            None => first_index(pane_infos_view(panes@), active_pane_of(session@, window@)) is None,
        },
{
    let ghost ps = pane_infos_view(panes@);
    let ghost p = active_pane_of(session@, window@);
    let mut i: usize = 0;
    while i < panes.len()
        invariant
            i <= panes.len(),
            ps == pane_infos_view(panes@),
            p == active_pane_of(session@, window@),
            forall|j: int| 0 <= j < i ==> !p(#[trigger] ps[j]),
        decreases panes.len() - i,
    {
        let q = &panes[i];
        let hit = q.active && str_eq(q.session_name.as_str(), session) && str_eq(q.window_name.as_str(), window);
        proof {
            assert(ps[i as int] == q@);
        }
        if hit {
            proof {
                lemma_first_index_is(ps, p, i as int);
            }
            return Some(i);
        }
        i = i + 1;
    }
    proof {
        lemma_first_index_none(ps, p);
    }
    None
}

pub(crate) fn active_pane_index(s: &UiSnapshot) -> (r: Option<usize>)
    ensures
        match r {
            Some(k) => active_pane(s@) == Some(k as int) && k < s.panes.len(),
            None => active_pane(s@) is None,
        },
{
    match active_window_index(s) {
        None => None,
        Some(i) => {
            proof {
                assert(s@.windows[i as int] == s.windows@[i as int]@);
            }
            find_pane(&s.panes, s.windows[i].session_name.as_str(), s.windows[i].window_name.as_str())
        },
    }
}

/// The session and window names of the shown window.
pub fn active_window_target_exec(s: &UiSnapshot) -> (r: Option<(String, String)>)
    ensures
        match (r, active_window_target(s@)) {
            (Some((a, b)), Some((x, y))) => a@ == x && b@ == y,
            (None, None) => true,
            _ => false,
        },
{
    match active_window_index(s) {
        None => None,
        Some(i) => {
            proof {
                assert(s@.windows[i as int] == s.windows@[i as int]@);
            }
            Some((s.windows[i].session_name.clone(), s.windows[i].window_name.clone()))
        },
    }
}

/// The session, window and pane id of the active pane.
pub fn active_pane_target_exec(s: &UiSnapshot) -> (r: Option<(String, String, String)>)
    ensures
        match (r, active_pane_target(s@)) {
            (Some((a, b, c)), Some((x, y, z))) => a@ == x && b@ == y && c@ == z,
            (None, None) => true,
            _ => false,
        },
{
    match active_pane_index(s) {
        None => None,
        Some(k) => {
            proof {
                assert(s@.panes[k as int] == s.panes@[k as int]@);
            }
            Some(
                (
                    s.panes[k].session_name.clone(),
                    s.panes[k].window_name.clone(),
                    u64_to_string(s.panes[k].pane_id),
                ),
            )
        },
    }
}

// ---------------------------------------------------------------------------
// Prefixed keys
// ---------------------------------------------------------------------------

/// A key as the client reads it.
#[derive(Debug, Clone, Copy, PartialEq, Eq, Structural)]
pub enum Key {
    Char(char),
    Enter,
    Tab,
    BackTab,
    Backspace,
    Esc,
    Left,
    Right,
    Up,
    Down,
    Home,
    End,
    PageUp,
    PageDown,
    Delete,
    Insert,
    Other,
}

/// A key press with the modifiers that matter.
#[derive(Debug, Clone, Copy, PartialEq, Eq, Structural)]
pub struct KeyInput {
    pub code: Key,
    pub ctrl: bool,
    pub alt: bool,
}

/// What a prefixed key asks for: a notice without asking the server, a
/// request whose answer becomes a notice (the text given on success), or
/// nothing.
pub enum PrefixAction {
    Notice(String),
    Send(Request, String),
    Nothing,
}

/// What a `PrefixAction` holds.
pub enum PrefixActionView {
    Notice(Seq<char>),
    Send(RequestView, Seq<char>),
    Nothing,
}

impl View for PrefixAction {
    type V = PrefixActionView;

    open spec fn view(&self) -> PrefixActionView {
        match self {
            PrefixAction::Notice(n) => PrefixActionView::Notice(n@),
            PrefixAction::Send(q, ok) => PrefixActionView::Send(q@, ok@),
            PrefixAction::Nothing => PrefixActionView::Nothing,
        }
    }
}

/// An active window of session `session`.
pub open spec fn active_window_of(session: Seq<char>) -> spec_fn(WindowInfoView) -> bool {
    |w: WindowInfoView| w.active && w.session_name == session
}

/// The name of the active window of `session`.
pub open spec fn session_window(s: SnapshotView, session: Seq<char>) -> Option<Seq<char>> {
    match first_index(s.windows, active_window_of(session)) {
        Some(i) => Some(s.windows[i].window_name),
        None => None,
    }
}

/// The id, as text, of the active pane of the active window of `session`.
pub open spec fn session_pane(s: SnapshotView, session: Seq<char>) -> Option<Seq<char>> {
    match first_index(s.windows, active_window_of(session)) {
        Some(i) => match first_index(s.panes, active_pane_of(session, s.windows[i].window_name)) {
            Some(k) => Some(decimal(s.panes[k].pane_id as nat)),
            None => None,
        },
        None => None,
    }
}

/// The direction an arrow key resizes in.
pub open spec fn arrow_direction(k: Key) -> Option<ResizeDir> {
    match k {
        Key::Up => Some(ResizeDir::Up),
        Key::Down => Some(ResizeDir::Down),
        Key::Left => Some(ResizeDir::Left),
        Key::Right => Some(ResizeDir::Right),
        _ => None,
    }
}

/// What a key pressed after the prefix asks of the server.
pub open spec fn prefix_action(s: SnapshotView, k: Key) -> PrefixActionView {
    match s.attached {
        None => PrefixActionView::Notice("no attached session"@),
        Some(session) => if k == Key::Char('c') {
            PrefixActionView::Send(RequestView::CreateWindow { session: Some(session), name: None }, "window created"@)
        } else if arrow_direction(k) is Some {
            PrefixActionView::Send(
                RequestView::ResizePane {
                    session: Some(session),
                    window: session_window(s, session),
                    pane: session_pane(s, session),
                    direction: arrow_direction(k)->0,
                    amount: 3,
                },
                "pane resized"@,
            )
        } else if k == Key::Char('"') || k == Key::Char('%') {
            PrefixActionView::Send(
                RequestView::SplitWindow {
                    session: Some(session),
                    window: session_window(s, session),
                    title: None,
                    orientation: if k == Key::Char('%') {
                        SplitOrientation::Vertical
                    } else {
                        SplitOrientation::Horizontal
                    },
                },
                "pane split"@,
            )
        } else if k == Key::Char('n') {
            PrefixActionView::Send(RequestView::NextWindow { session: Some(session) }, "next window"@)
        } else if k == Key::Char('p') {
            PrefixActionView::Send(RequestView::PreviousWindow { session: Some(session) }, "previous window"@)
        } else if k == Key::Char('x') {
            PrefixActionView::Send(
                RequestView::KillPane {
                    session: Some(session),
                    window: session_window(s, session),
                    pane: session_pane(s, session),
                },
                "pane killed"@,
            )
        } else {
            PrefixActionView::Nothing
        },
    }
}

fn session_window_index(s: &UiSnapshot, session: &str) -> (r: Option<usize>)
    ensures
        match r {
            Some(i) => first_index(s@.windows, active_window_of(session@)) == Some(i as int) && i < s.windows.len(),
            None => first_index(s@.windows, active_window_of(session@)) is None,
        },
{
    let ghost ws = s@.windows;
    let ghost p = active_window_of(session@);
    let mut i: usize = 0;
    while i < s.windows.len()
        invariant
            i <= s.windows.len(),
            ws == s@.windows,
            p == active_window_of(session@),
            forall|j: int| 0 <= j < i ==> !p(#[trigger] ws[j]),
        decreases s.windows.len() - i,
    {
        proof {
            assert(ws[i as int] == s.windows@[i as int]@);
        }
        if s.windows[i].active && str_eq(s.windows[i].session_name.as_str(), session) {
            proof {
                lemma_first_index_is(ws, p, i as int);
            }
            return Some(i);
        }
        i = i + 1;
    }
    proof {
        lemma_first_index_none(ws, p);
    }
    None
}

fn session_window_exec(s: &UiSnapshot, session: &str) -> (r: Option<String>)
    ensures
        r.deep_view() == session_window(s@, session@),
{
    match session_window_index(s, session) {
        Some(i) => {
            proof {
                assert(s@.windows[i as int] == s.windows@[i as int]@);
            }
            Some(s.windows[i].window_name.clone())
        },
        None => None,
    }
}

fn session_pane_exec(s: &UiSnapshot, session: &str) -> (r: Option<String>)
    ensures
        r.deep_view() == session_pane(s@, session@),
{
    match session_window_index(s, session) {
        Some(i) => {
            proof {
                assert(s@.windows[i as int] == s.windows@[i as int]@);
            }
            match find_pane(&s.panes, session, s.windows[i].window_name.as_str()) {
                Some(k) => {
                    proof {
                        assert(s@.panes[k as int] == s.panes@[k as int]@);
                    }
                    Some(u64_to_string(s.panes[k].pane_id))
                },
                None => None,
            }
        },
        None => None,
    }
}

/// What a key pressed after the prefix asks of the server.
pub fn prefix_action_exec(s: &UiSnapshot, k: Key) -> (r: PrefixAction)
    ensures
        r@ == prefix_action(s@, k),
{
    let session = match &s.attached_session {
        None => {
            return PrefixAction::Notice(lit("no attached session"));
        },
        Some(a) => a,
    };
    let direction = match k {
        Key::Up => Some(ResizeDir::Up),
        Key::Down => Some(ResizeDir::Down),
        Key::Left => Some(ResizeDir::Left),
        Key::Right => Some(ResizeDir::Right),
        _ => None,
    };
    if k == Key::Char('c') {
        PrefixAction::Send(Request::CreateWindow { session: Some(session.clone()), name: None }, lit("window created"))
    } else if direction.is_some() {
        let d = match direction {
            Some(d) => d,
            None => ResizeDir::Up,
        };
        PrefixAction::Send(
            Request::ResizePane {
                session: Some(session.clone()),
                window: session_window_exec(s, session.as_str()),
                pane: session_pane_exec(s, session.as_str()),
                direction: d,
                amount: 3,
            },
            lit("pane resized"),
        )
    } else if k == Key::Char('"') || k == Key::Char('%') {
        PrefixAction::Send(
            Request::SplitWindow {
                session: Some(session.clone()),
                window: session_window_exec(s, session.as_str()),
                title: None,
                orientation: if k == Key::Char('%') {
                    SplitOrientation::Vertical
                } else {
                    SplitOrientation::Horizontal
                },
            },
            lit("pane split"),
        )
    } else if k == Key::Char('n') {
        PrefixAction::Send(Request::NextWindow { session: Some(session.clone()) }, lit("next window"))
    } else if k == Key::Char('p') {
        PrefixAction::Send(Request::PreviousWindow { session: Some(session.clone()) }, lit("previous window"))
    } else if k == Key::Char('x') {
        PrefixAction::Send(
            Request::KillPane {
                session: Some(session.clone()),
                window: session_window_exec(s, session.as_str()),
                pane: session_pane_exec(s, session.as_str()),
            },
            lit("pane killed"),
        )
    } else {
        PrefixAction::Nothing
    }
}

/// The notice for an answer: its error, or the given text.
pub open spec fn response_notice(r: ResponseView, ok: Seq<char>) -> Seq<char> {
    match r {
        ResponseView::Error { message } => "error: "@ + message,
        _ => ok,
    }
}

/// The notice for an answer: its error, or the given text.
pub fn response_notice_exec(r: &Response, ok: &str) -> (n: Option<String>)
    ensures
        n matches Some(t) && t@ == response_notice(r@, ok@),
{
    match r {
        Response::Error { message } => Some(concat2("error: ", message.as_str())),
        _ => Some(lit(ok)),
    }
}

/// The session an attach answer names.
pub fn response_session_name(r: &Response) -> (n: Option<String>)
    ensures
        match r@ {
            ResponseView::SessionAttached { name } => n matches Some(t) && t@ == name,
            _ => n is None,
        },
{
    match r {
        Response::SessionAttached { name } => Some(name.clone()),
        _ => None,
    }
}

// ---------------------------------------------------------------------------
// Keys sent to a pane
// ---------------------------------------------------------------------------

/// The control character that Ctrl with `c` gives.
pub open spec fn control_char(c: char) -> Option<char> {
    if ('a' <= c && c <= 'z') {
        Some(((c as u32) - 96) as char)
    } else if ('A' <= c && c <= 'Z') {
        Some(((c as u32) - 64) as char)
    } else if c == '[' {
        Some('\u{1b}')
    } else if c == '\\' {
        Some('\u{1c}')
    } else if c == ']' {
        Some('\u{1d}')
    } else if c == '^' {
        Some('\u{1e}')
    } else if c == '_' {
        Some('\u{1f}')
    } else if c == ' ' {
        Some('\u{0}')
    } else {
        None
    }
}

/// The bytes a key sends to a pane, as text (before any Alt prefix).
pub open spec fn key_text(k: KeyInput) -> Option<Seq<char>> {
    match k.code {
        Key::Char(c) => if k.ctrl {
            match control_char(c) {
                Some(d) => Some(seq![d]),
                None => None,
            }
        } else {
            Some(seq![c])
        },
        Key::Enter => Some("\n"@),
        Key::Tab => Some("\t"@),
        Key::BackTab => Some("\u{1b}[Z"@),
        Key::Backspace => Some("\u{7f}"@),
        Key::Esc => Some("\u{1b}"@),
        Key::Left => Some("\u{1b}[D"@),
        Key::Right => Some("\u{1b}[C"@),
        Key::Up => Some("\u{1b}[A"@),
        Key::Down => Some("\u{1b}[B"@),
        Key::Home => Some("\u{1b}[H"@),
        Key::End => Some("\u{1b}[F"@),
        Key::PageUp => Some("\u{1b}[5~"@),
        Key::PageDown => Some("\u{1b}[6~"@),
        Key::Delete => Some("\u{1b}[3~"@),
        Key::Insert => Some("\u{1b}[2~"@),
        Key::Other => None,
    }
}

/// What a key sends to a pane: its text, after ESC when Alt is held; keys
/// with no text send nothing.
pub open spec fn key_literal(k: KeyInput) -> Option<Seq<char>> {
    match key_text(k) {
        None => None,
        Some(t) => Some(if k.alt {
            seq!['\u{1b}'] + t
        } else {
            t
        }),
    }
}

/// What a key sends to a pane.
pub fn key_event_to_literal(k: KeyInput) -> (r: Option<String>)
    ensures
        r.deep_view() == key_literal(k),
{
    let mut out = String::new();
    if k.alt {
        push_char(&mut out, '\u{1b}');
    }
    let ghost head = out@;
    match k.code {
        Key::Char(c) => {
            if k.ctrl {
                let d = if 'a' <= c && c <= 'z' {
                    let u: u32 = c as u32;
                    char_from(u - 96)
                } else if 'A' <= c && c <= 'Z' {
                    let u: u32 = c as u32;
                    char_from(u - 64)
                } else if c == '[' {
                    '\u{1b}'
                } else if c == '\\' {
                    '\u{1c}'
                } else if c == ']' {
                    '\u{1d}'
                } else if c == '^' {
                    '\u{1e}'
                } else if c == '_' {
                    '\u{1f}'
                } else if c == ' ' {
                    '\u{0}'
                } else {
                    return None;
                };
                push_char(&mut out, d);
            } else {
                push_char(&mut out, c);
            }
        },
        Key::Enter => append_str(&mut out, "\n"),
        Key::Tab => append_str(&mut out, "\t"),
        Key::BackTab => append_str(&mut out, "\u{1b}[Z"),
        Key::Backspace => append_str(&mut out, "\u{7f}"),
        Key::Esc => append_str(&mut out, "\u{1b}"),
        Key::Left => append_str(&mut out, "\u{1b}[D"),
        Key::Right => append_str(&mut out, "\u{1b}[C"),
        Key::Up => append_str(&mut out, "\u{1b}[A"),
        Key::Down => append_str(&mut out, "\u{1b}[B"),
        Key::Home => append_str(&mut out, "\u{1b}[H"),
        Key::End => append_str(&mut out, "\u{1b}[F"),
        Key::PageUp => append_str(&mut out, "\u{1b}[5~"),
        Key::PageDown => append_str(&mut out, "\u{1b}[6~"),
        Key::Delete => append_str(&mut out, "\u{1b}[3~"),
        Key::Insert => append_str(&mut out, "\u{1b}[2~"),
        Key::Other => {
            return None;
        },
    }
    proof {
        let t = key_text(k)->0;
        assert(out@ =~= head + t);
        if k.alt {
            assert(head =~= seq!['\u{1b}']);
        } else {
            assert(head =~= Seq::<char>::empty());
        }
    }
    Some(out)
}

/// The character with code `u`, a control code below 32.
fn char_from(u: u32) -> (c: char)
    requires
        u < 32,
    ensures
        c == u as char,
{
    let b: u8 = u as u8;
    b as char
}


// ---------------------------------------------------------------------------
// Orderings
// ---------------------------------------------------------------------------

/// Where `x` goes among `s`: after every element whose key is at most
/// `x`'s, so that equal keys keep their order.
pub open spec fn insert_by_key(s: Seq<int>, x: int, key: spec_fn(int) -> int) -> Seq<int> {
    let at = match first_index(s, |e: int| key(x) < key(e)) {
        Some(j) => j,
        None => s.len() as int,
    };
    s.insert(at, x)
}

/// `s` in ascending order of `key`, elements with equal keys in their
/// given order (a stable sort).
pub open spec fn sort_by_key(s: Seq<int>, key: spec_fn(int) -> int) -> Seq<int>
    decreases s.len(),
{
    if s.len() == 0 {
        seq![]
    } else {
        insert_by_key(sort_by_key(s.drop_last(), key), s.last(), key)
    }
}

/// The positions `0..n` in ascending order of `keys`, ties in position
/// order.
pub open spec fn key_order(keys: Seq<u64>) -> Seq<int> {
    sort_by_key(Seq::new(keys.len(), |i: int| i), |i: int| keys[i] as int)
}

/// Some positions as integers.
pub open spec fn positions(v: Seq<usize>) -> Seq<int> {
    v.map_values(|u: usize| u as int)
}

/// The positions of `keys` in ascending order of their keys, ties in
/// position order.
pub fn order_by_key(keys: &Vec<u64>) -> (r: Vec<usize>)
    ensures
        positions(r@) == key_order(keys@),
        forall|j: int| 0 <= j < r@.len() ==> #[trigger] r@[j] < keys.len(),
{
    let ghost key = |i: int| keys@[i] as int;
    let mut out: Vec<usize> = Vec::new();
    let mut k: usize = 0;
    while k < keys.len()
        invariant
            k <= keys.len(),
            key == (|i: int| keys@[i] as int),
            positions(out@) == sort_by_key(Seq::new(k as nat, |i: int| i), key),
            forall|j: int| 0 <= j < out@.len() ==> #[trigger] out@[j] < k,
        decreases keys.len() - k,
    {
        let ghost sorted = positions(out@);
        let ghost pred = |e: int| key(k as int) < key(e);
        let mut at: usize = 0;
        while at < out.len() && !(keys[k] < keys[out[at]])
            invariant
                at <= out.len(),
                k < keys.len(),
                sorted == positions(out@),
                pred == (|e: int| key(k as int) < key(e)),
                key == (|i: int| keys@[i] as int),
                forall|j: int| 0 <= j < out@.len() ==> #[trigger] out@[j] < k,
                forall|j: int| 0 <= j < at ==> !pred(#[trigger] sorted[j]),
            decreases out.len() - at,
        {
            at = at + 1;
        }
        proof {
            if at < out.len() {
                assert(sorted[at as int] == out@[at as int] as int);
                lemma_first_index_is(sorted, pred, at as int);
            } else {
                lemma_first_index_none(sorted, pred);
            }
        }
        let ghost before = out@;
        out.insert(at, k);
        proof {
            let s_next = Seq::new((k + 1) as nat, |i: int| i);
            assert(s_next.drop_last() =~= Seq::new(k as nat, |i: int| i));
            assert(s_next.last() == k);
            assert(positions(out@) =~= sorted.insert(at as int, k as int));
            assert forall|j: int| 0 <= j < out@.len() implies #[trigger] out@[j] < k + 1 by {
                if j < at {
                    assert(out@[j] == before[j]);
                } else if j > at {
                    assert(out@[j] == before[j - 1]);
                }
            }
        }
        k = k + 1;
    }
    proof {
        assert(Seq::new(keys.len() as nat, |i: int| i) =~= Seq::new(keys@.len(), |i: int| i));
    }
    out
}


// ---------------------------------------------------------------------------
// The next pane
// ---------------------------------------------------------------------------

/// A pane of window `window` of session `session`.
pub open spec fn in_window(session: Seq<char>, window: Seq<char>) -> spec_fn(PaneInfoView) -> bool {
    |p: PaneInfoView| p.session_name == session && p.window_name == window
}

/// The panes of a window, in the snapshot's order.
pub open spec fn window_panes(s: SnapshotView, session: Seq<char>, window: Seq<char>) -> Seq<PaneInfoView> {
    s.panes.filter(in_window(session, window))
}

/// Some values in ascending order.
pub open spec fn sorted_values(v: Seq<u64>) -> Seq<u64> {
    key_order(v).map_values(|i: int| v[i])
}

/// The id (as text) that a number read from `pid` gives, 0 where it does
/// not parse.
pub open spec fn id_of(pid: Seq<char>) -> u64 {
    match parse_unsigned(pid, u64::MAX as nat) {
        Some(n) => n as u64,
        None => 0,
    }
}

/// The request that selects the pane after the active one, in ascending
/// order of ids and round to the first; none where the window has one pane.
pub open spec fn next_pane_request(s: SnapshotView) -> Option<RequestView> {
    match active_pane_target(s) {
        None => None,
        Some((sn, wn, pid)) => {
            let ids = sorted_values(window_panes(s, sn, wn).map_values(|p: PaneInfoView| p.pane_id));
            if ids.len() <= 1 {
                None
            } else {
                let idx = match first_index(ids, |v: u64| v == id_of(pid)) {
                    Some(j) => j,
                    None => 0,
                };
                Some(
                    RequestView::SelectPane {
                        session: Some(sn),
                        window: Some(wn),
                        pane: decimal(ids[(idx + 1) % (ids.len() as int)] as nat),
                    },
                )
            }
        },
    }
}

pub(crate) fn window_pane_indices(s: &UiSnapshot, session: &str, window: &str) -> (r: Vec<usize>)
    ensures
        r@.map_values(|k: usize| s@.panes[k as int]) == window_panes(s@, session@, window@),
        forall|j: int| 0 <= j < r@.len() ==> #[trigger] r@[j] < s.panes.len(),
{
    let ghost ps = s@.panes;
    let ghost f = in_window(session@, window@);
    let mut out: Vec<usize> = Vec::new();
    let mut i: usize = 0;
    while i < s.panes.len()
        invariant
            i <= s.panes.len(),
            ps == s@.panes,
            f == in_window(session@, window@),
            out@.map_values(|k: usize| ps[k as int]) == ps.take(i as int).filter(f),
            forall|j: int| 0 <= j < out@.len() ==> #[trigger] out@[j] < i,
        decreases s.panes.len() - i,
    {
        proof {
            assert(ps[i as int] == s.panes@[i as int]@);
            reveal(Seq::filter);
            assert(ps.take(i + 1).drop_last() =~= ps.take(i as int));
            assert(ps.take(i + 1).last() == ps[i as int]);
        }
        let ghost before = out@;
        if str_eq(s.panes[i].session_name.as_str(), session) && str_eq(s.panes[i].window_name.as_str(), window) {
            out.push(i);
            proof {
                assert(out@.map_values(|k: usize| ps[k as int]) =~= before.map_values(|k: usize| ps[k as int]).push(
                    ps[i as int],
                ));
            }
        }
        i = i + 1;
    }
    proof {
        assert(ps.take(i as int) =~= ps);
    }
    out
}

/// The request that selects the pane after the active one.
pub fn next_pane_request_exec(s: &UiSnapshot) -> (r: Option<Request>)
    ensures
        match (r, next_pane_request(s@)) {
            (Some(q), Some(w)) => q@ == w,
            (None, None) => true,
            _ => false,
        },
{
    let (sn, wn, pid) = match active_pane_target_exec(s) {
        None => {
            return None;
        },
        Some(t) => t,
    };
    let idx = window_pane_indices(s, sn.as_str(), wn.as_str());
    let ghost wp = window_panes(s@, sn@, wn@);
    let mut ids: Vec<u64> = Vec::new();
    let mut i: usize = 0;
    while i < idx.len()
        invariant
            i <= idx.len(),
            wp == window_panes(s@, sn@, wn@),
            idx@.map_values(|k: usize| s@.panes[k as int]) == wp,
            forall|j: int| 0 <= j < idx@.len() ==> #[trigger] idx@[j] < s.panes.len(),
            ids@ == wp.map_values(|p: PaneInfoView| p.pane_id).take(i as int),
        decreases idx.len() - i,
    {
        proof {
            assert(wp[i as int] == s@.panes[idx@[i as int] as int]);
            assert(s@.panes[idx@[i as int] as int] == s.panes@[idx@[i as int] as int]@);
        }
        ids.push(s.panes[idx[i]].pane_id);
        proof {
            assert(ids@ =~= wp.map_values(|p: PaneInfoView| p.pane_id).take(i + 1));
        }
        i = i + 1;
    }
    let ghost raw = wp.map_values(|p: PaneInfoView| p.pane_id);
    proof {
        assert(raw.take(i as int) =~= raw);
    }
    let order = order_by_key(&ids);
    let mut sorted: Vec<u64> = Vec::new();
    let mut k: usize = 0;
    while k < order.len()
        invariant
            k <= order.len(),
            ids@ == raw,
            positions(order@) == key_order(raw),
            forall|j: int| 0 <= j < order@.len() ==> #[trigger] order@[j] < ids.len(),
            sorted@ == key_order(raw).map_values(|i: int| raw[i]).take(k as int),
        decreases order.len() - k,
    {
        sorted.push(ids[order[k]]);
        proof {
            assert(positions(order@)[k as int] == order@[k as int] as int);
            assert(sorted@ =~= key_order(raw).map_values(|i: int| raw[i]).take(k + 1));
        }
        k = k + 1;
    }
    let ghost want = sorted_values(raw);
    proof {
        assert(key_order(raw).map_values(|i: int| raw[i]).take(k as int) =~= want);
    }
    if sorted.len() <= 1 {
        return None;
    }
    let num: u64 = match parse_u64(pid.as_str()) {
        Some(n) => n,
        None => 0,
    };
    let ghost pred = |v: u64| v == id_of(pid@);
    let mut at: usize = 0;
    while at < sorted.len() && sorted[at] != num
        invariant
            at <= sorted.len(),
            sorted@ == want,
            num == id_of(pid@),
            pred == (|v: u64| v == id_of(pid@)),
            forall|j: int| 0 <= j < at ==> !pred(#[trigger] want[j]),
        decreases sorted.len() - at,
    {
        at = at + 1;
    }
    let pos = if at < sorted.len() {
        proof {
            lemma_first_index_is(want, pred, at as int);
        }
        at
    } else {
        proof {
            lemma_first_index_none(want, pred);
        }
        0
    };
    let next = sorted[(pos + 1) % sorted.len()];
    Some(Request::SelectPane { session: Some(sn), window: Some(wn), pane: u64_to_string(next) })
}

// ---------------------------------------------------------------------------
// The mouse
// ---------------------------------------------------------------------------

/// A mouse event the client acts on.
#[derive(Debug, Clone, Copy, PartialEq, Eq, Structural)]
pub enum MouseKind {
    ScrollUp,
    ScrollDown,
    LeftDown,
    Other,
}

/// The pane a left click at `row` selects when `n` panes are stacked in a
/// terminal `term_rows` high: each pane a header row and an even share of
/// the content rows, from the row below the top bar.
pub open spec fn clicked_pane(row: u16, term_rows: u16, n: nat) -> Option<int> {
    let content = if term_rows >= 3 + n {
        term_rows - 3 - n
    } else {
        0
    };
    let content = if content >= n {
        content
    } else {
        n as int
    };
    let h = 1 + content / (n as int);
    if n > 0 && 1 <= row && (row - 1) / h < n {
        Some((row - 1) / h)
    } else {
        None
    }
}

/// What a mouse event does: the scroll offset and mode afterwards, and a
/// request to select the clicked pane, if any.
pub open spec fn mouse_action(
    s: SnapshotView,
    kind: MouseKind,
    row: u16,
    term_rows: u16,
    scroll: usize,
    mode: bool,
) -> (usize, bool, Option<RequestView>) {
    match kind {
        MouseKind::ScrollUp => (crate::terminal::sat_add(scroll, 3), true, None),
        MouseKind::ScrollDown => {
            let o = crate::terminal::sat_sub(scroll, 3);
            (o, if o == 0 {
                false
            } else {
                mode
            }, None)
        },
        MouseKind::LeftDown => match active_window_target(s) {
            None => (scroll, mode, None),
            Some((sn, wn)) => {
                let ps = window_panes(s, sn, wn);
                if ps.len() <= 1 {
                    (scroll, mode, None)
                } else {
                    match clicked_pane(row, term_rows, ps.len()) {
                        Some(j) => (
                            scroll,
                            mode,
                            Some(
                                RequestView::SelectPane {
                                    session: Some(sn),
                                    window: Some(wn),
                                    pane: decimal(ps[j].pane_id as nat),
                                },
                            ),
                        ),
                        None => (scroll, mode, None),
                    }
                }
            },
        },
        MouseKind::Other => (scroll, mode, None),
    }
}

/// What a mouse event does.
pub fn mouse_action_exec(
    s: &UiSnapshot,
    kind: MouseKind,
    row: u16,
    term_rows: u16,
    scroll: usize,
    mode: bool,
) -> (r: (usize, bool, Option<Request>))
    ensures
        ({
            let (o, m, q) = mouse_action(s@, kind, row, term_rows, scroll, mode);
            &&& r.0 == o
            &&& r.1 == m
            &&& match (r.2, q) {
                (Some(a), Some(b)) => a@ == b,
                (None, None) => true,
                _ => false,
            }
        }),
{
    match kind {
        MouseKind::ScrollUp => (scroll.saturating_add(3), true, None),
        MouseKind::ScrollDown => {
            let o = scroll.saturating_sub(3);
            (o, if o == 0 {
                false
            } else {
                mode
            }, None)
        },
        MouseKind::LeftDown => {
            let (sn, wn) = match active_window_target_exec(s) {
                None => {
                    return (scroll, mode, None);
                },
                Some(t) => t,
            };
            let idx = window_pane_indices(s, sn.as_str(), wn.as_str());
            let ghost ps = window_panes(s@, sn@, wn@);
            let n = idx.len();
            if n <= 1 {
                return (scroll, mode, None);
            }
            let tr = term_rows as usize;
            let content0 = tr.saturating_sub(n.saturating_add(3));
            let content = if content0 >= n {
                content0
            } else {
                n
            };
            let h = 1 + content / n;
            if 1 <= row && ((row as usize) - 1) / h < n {
                let j = ((row as usize) - 1) / h;
                proof {
                    assert(ps[j as int] == s@.panes[idx@[j as int] as int]);
                    assert(s@.panes[idx@[j as int] as int] == s.panes@[idx@[j as int] as int]@);
                }
                (
                    scroll,
                    mode,
                    Some(
                        Request::SelectPane {
                            session: Some(sn),
                            window: Some(wn),
                            pane: u64_to_string(s.panes[idx[j]].pane_id),
                        },
                    ),
                )
            } else {
                (scroll, mode, None)
            }
        },
        MouseKind::Other => (scroll, mode, None),
    }
}

/// The command that sizes the shown window to the terminal.
pub open spec fn resize_command(s: SnapshotView, cols: u16, rows: u16) -> Option<Seq<char>> {
    match active_window_target(s) {
        None => None,
        Some((sn, wn)) => Some(
            "resize-window -t "@ + sn + ":"@ + wn + " -x "@ + decimal(cols as nat) + " -y "@ + decimal(
                rows as nat,
            ),
        ),
    }
}

/// The command that sizes the shown window to the terminal.
pub fn resize_command_exec(s: &UiSnapshot, cols: u16, rows: u16) -> (r: Option<String>)
    ensures
        r.deep_view() == resize_command(s@, cols, rows),
{
    match active_window_target_exec(s) {
        None => None,
        Some((sn, wn)) => {
            let mut c = lit("resize-window -t ");
            append_str(&mut c, sn.as_str());
            append_str(&mut c, ":");
            append_str(&mut c, wn.as_str());
            append_str(&mut c, " -x ");
            crate::text::push_decimal(&mut c, cols as u64);
            append_str(&mut c, " -y ");
            crate::text::push_decimal(&mut c, rows as u64);
            Some(c)
        },
    }
}


// ---------------------------------------------------------------------------
// Assembling a snapshot
// ---------------------------------------------------------------------------

/// A client attached to a session.
pub open spec fn attached_somewhere() -> spec_fn(crate::proto::ClientInfoView) -> bool {
    |c: crate::proto::ClientInfoView| c.attached_session is Some
}

/// The session the client is attached to, from the client list: that of
/// the first client attached anywhere, unless its name is empty.
pub open spec fn attached_from(r: ResponseView) -> Option<Seq<char>> {
    match r {
        ResponseView::Clients(cs) => match first_index(cs, attached_somewhere()) {
            Some(i) => if cs[i].attached_session->0.len() > 0 {
                cs[i].attached_session
            } else {
                None
            },
            None => None,
        },
        _ => None,
    }
}

/// A snapshot from the server's answers to the four listing requests: an
/// error answer to a listing fails it with its message (sessions first,
/// then windows, then panes); any other unexpected answer counts as an
/// empty list.
pub open spec fn snapshot_of(
    clients: ResponseView,
    sessions: ResponseView,
    windows: ResponseView,
    panes: ResponseView,
) -> Result<SnapshotView, Seq<char>> {
    match sessions {
        ResponseView::Error { message } => Err(message),
        _ => match windows {
            ResponseView::Error { message } => Err(message),
            _ => match panes {
                ResponseView::Error { message } => Err(message),
                _ => Ok(
                    SnapshotView {
                        attached: attached_from(clients),
                        sessions: match sessions {
                            ResponseView::Sessions(v) => v,
                            _ => seq![],
                        },
                        windows: match windows {
                            ResponseView::Windows(v) => v,
                            _ => seq![],
                        },
                        panes: match panes {
                            ResponseView::Panes(v) => v,
                            _ => seq![],
                        },
                    },
                ),
            },
        },
    }
}

fn attached_from_exec(r: &Response) -> (a: Option<String>)
    ensures
        a.deep_view() == attached_from(r@),
{
    match r {
        Response::Clients(cs) => {
            let ghost cv = crate::proto::client_infos_view(cs@);
            let ghost pred = attached_somewhere();
            let mut i: usize = 0;
            while i < cs.len()
                invariant
                    i <= cs.len(),
                    cv == crate::proto::client_infos_view(cs@),
                    r@ == ResponseView::Clients(cv),
                    pred == attached_somewhere(),
                    forall|j: int| 0 <= j < i ==> !pred(#[trigger] cv[j]),
                decreases cs.len() - i,
            {
                proof {
                    assert(cv[i as int] == cs@[i as int]@);
                }
                match &cs[i].attached_session {
                    Some(a) => {
                        proof {
                            assert(cv[i as int].attached_session == Some(a@));
                            lemma_first_index_is(cv, pred, i as int);
                            assert(attached_from(r@) == (if a@.len() > 0 {
                                Some(a@)
                            } else {
                                None
                            }));
                        }
                        if crate::text::str_is_empty(a.as_str()) {
                            return None;
                        }
                        return Some(a.clone());
                    },
                    None => {},
                }
                i = i + 1;
            }
            proof {
                lemma_first_index_none(cv, pred);
            }
            None
        },
        _ => None,
    }
}

/// A snapshot from the server's answers to the four listing requests.
pub fn snapshot_from(clients: &Response, sessions_r: Response, windows_r: Response, panes_r: Response) -> (r: Result<
    UiSnapshot,
    String,
>)
    ensures
        match (r, snapshot_of(clients@, sessions_r@, windows_r@, panes_r@)) {
            (Ok(s), Ok(v)) => s@ == v,
            (Err(m), Err(w)) => m@ == w,
            _ => false,
        },
{
    let ghost sv = sessions_r@;
    let ghost wv = windows_r@;
    let ghost pv = panes_r@;
    let sessions = match sessions_r {
        Response::Error { message } => {
            return Err(message);
        },
        Response::Sessions(v) => v,
        _ => Vec::new(),
    };
    let windows = match windows_r {
        Response::Error { message } => {
            return Err(message);
        },
        Response::Windows(v) => v,
        _ => Vec::new(),
    };
    let panes = match panes_r {
        Response::Error { message } => {
            return Err(message);
        },
        Response::Panes(v) => v,
        _ => Vec::new(),
    };
    let s = UiSnapshot { attached_session: attached_from_exec(clients), sessions, windows, panes };
    proof {
        assert(s@.sessions =~= (match sv {
            ResponseView::Sessions(v) => v,
            _ => seq![],
        }));
        assert(s@.windows =~= (match wv {
            ResponseView::Windows(v) => v,
            _ => seq![],
        }));
        assert(s@.panes =~= (match pv {
            ResponseView::Panes(v) => v,
            _ => seq![],
        }));
    }
    Ok(s)
}
} // verus!
