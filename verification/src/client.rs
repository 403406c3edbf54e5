//! The interactive client's decisions: its modes (prefix, command prompt,
//! popups, copy mode, scrolling), what each key does to them, and which
//! request, if any, it sends the server; then what the answer does.
use vstd::prelude::*;
use crate::text::{
    chars_of, string_of_range, push_char, lit, concat2, append_str, views_of, trim, trim_exec,
    str_is_empty, decimal, push_decimal, clone_opt,
};
use crate::proto::{Request, RequestView, Response, ResponseView};
use crate::ui::{
    UiSnapshot, SnapshotView, Key, KeyInput, PrefixAction, PrefixActionView, prefix_action,
    prefix_action_exec, active_pane_target, active_pane_target_exec, next_pane_request,
    next_pane_request_exec, key_literal, key_event_to_literal, response_notice,
};
use crate::copy::{CopyModeState, yanked, yank_selection};
use crate::terminal::{sat_add, sat_sub};

verus! {

/// A popup: a title and its lines.
pub struct PopupState {
    pub title: String,
    pub lines: Vec<String>,
}

/// The client's modes between keys.
pub struct UiState {
    pub prefix: bool,
    pub show_meta: bool,
    pub command_mode: Option<String>,
    pub notice: Option<String>,
    pub scroll_offset: usize,
    pub scroll_mode: bool,
    pub copy_mode: Option<CopyModeState>,
    pub yank_buffer: String,
    pub popup: Option<PopupState>,
    pub popup_input: Option<String>,
}

/// What the client's modes hold.
pub struct UiView {
    pub prefix: bool,
    pub show_meta: bool,
    pub command_mode: Option<Seq<char>>,
    pub notice: Option<Seq<char>>,
    pub scroll_offset: usize,
    pub scroll_mode: bool,
    pub copy_mode: Option<CopyModeState>,
    pub yank_buffer: Seq<char>,
    pub popup: Option<(Seq<char>, Seq<Seq<char>>)>,
    pub popup_input: Option<Seq<char>>,
}

/// What a popup holds.
pub open spec fn popup_view(p: Option<PopupState>) -> Option<(Seq<char>, Seq<Seq<char>>)> {
    match p {
        Some(x) => Some((x.title@, views_of(x.lines@))),
        None => None,
    }
}

impl View for UiState {
    type V = UiView;

    open spec fn view(&self) -> UiView {
        UiView {
            prefix: self.prefix,
            show_meta: self.show_meta,
            command_mode: self.command_mode.deep_view(),
            notice: self.notice.deep_view(),
            scroll_offset: self.scroll_offset,
            scroll_mode: self.scroll_mode,
            copy_mode: self.copy_mode,
            yank_buffer: self.yank_buffer@,
            popup: popup_view(self.popup),
            popup_input: self.popup_input.deep_view(),
        }
    }
}

impl UiState {
    /// The modes when the client starts.
    pub fn new() -> (r: Self)
        ensures
            r@ == initial_ui(),
    {
        UiState {
            prefix: false,
            show_meta: false,
            command_mode: None,
            notice: None,
            scroll_offset: 0,
            scroll_mode: false,
            copy_mode: None,
            yank_buffer: String::new(),
            popup: None,
            popup_input: None,
        }
    }
}

/// The modes when the client starts: all off, nothing yanked.
pub open spec fn initial_ui() -> UiView {
    UiView {
        prefix: false,
        show_meta: false,
        command_mode: None,
        notice: None,
        scroll_offset: 0,
        scroll_mode: false,
        copy_mode: None,
        yank_buffer: seq![],
        popup: None,
        popup_input: None,
    }
}

/// What the answer to a request does to the client's modes.
pub enum FollowUp {
    /// Nothing.
    Ignore,
    /// The notice becomes the answer's error, or the given text.
    Notice(String),
    /// A shell command run for the popup: its output opens a popup.
    PopupShell(String),
    /// A command typed at the prompt: the notice tells how it went.
    CommandResult,
    /// A paste of the yank buffer.
    Paste,
    /// Keys sent to the active pane: an error ends the client.
    FailOnError,
    /// The window resized to the terminal: an error becomes a notice.
    ResizeSync,
}

/// What a `FollowUp` holds.
pub enum FollowUpView {
    Ignore,
    Notice(Seq<char>),
    PopupShell(Seq<char>),
    CommandResult,
    Paste,
    FailOnError,
    ResizeSync,
}

impl View for FollowUp {
    type V = FollowUpView;

    open spec fn view(&self) -> FollowUpView {
        match self {
            FollowUp::Ignore => FollowUpView::Ignore,
            FollowUp::Notice(s) => FollowUpView::Notice(s@),
            FollowUp::PopupShell(s) => FollowUpView::PopupShell(s@),
            FollowUp::CommandResult => FollowUpView::CommandResult,
            FollowUp::Paste => FollowUpView::Paste,
            FollowUp::FailOnError => FollowUpView::FailOnError,
            FollowUp::ResizeSync => FollowUpView::ResizeSync,
        }
    }
}

/// What the client does after a key: nothing more, quit, send a request
/// and handle its answer, or detach: send the request and quit whatever the
/// answer.
pub enum UiAction {
    Nothing,
    Quit,
    Send(Request, FollowUp),
    Detach(Request),
}

/// What a `UiAction` holds.
pub enum UiActionView {
    Nothing,
    Quit,
    Send(RequestView, FollowUpView),
    Detach(RequestView),
}

impl View for UiAction {
    type V = UiActionView;

    open spec fn view(&self) -> UiActionView {
        match self {
            UiAction::Nothing => UiActionView::Nothing,
            UiAction::Quit => UiActionView::Quit,
            UiAction::Send(q, f) => UiActionView::Send(q@, f@),
            UiAction::Detach(q) => UiActionView::Detach(q@),
        }
    }
}

// ---------------------------------------------------------------------------
// Text input
// ---------------------------------------------------------------------------

/// A line being typed after a key: Backspace removes the last character,
/// a character typed without Ctrl is added.
pub open spec fn edit_buffer(buf: Seq<char>, k: KeyInput) -> Seq<char> {
    match k.code {
        Key::Backspace => if buf.len() > 0 {
            buf.drop_last()
        } else {
            buf
        },
        Key::Char(c) => if !k.ctrl {
            buf.push(c)
        } else {
            buf
        },
        _ => buf,
    }
}

fn edit_buffer_exec(buf: &String, k: KeyInput) -> (r: String)
    ensures
        r@ == edit_buffer(buf@, k),
{
    match k.code {
        Key::Backspace => {
            let cs = chars_of(buf.as_str());
            if cs.len() > 0 {
                let r = string_of_range(&cs, 0, cs.len() - 1);
                proof {
                    assert(r@ =~= buf@.drop_last());
                }
                r
            } else {
                buf.clone()
            }
        },
        Key::Char(c) => {
            let mut r = buf.clone();
            if !k.ctrl {
                push_char(&mut r, c);
            }
            r
        },
        _ => buf.clone(),
    }
}

/// A key while the popup's shell command is typed.
pub open spec fn popup_input_key(u: UiView, buf: Seq<char>, k: KeyInput) -> (UiView, UiActionView) {
    match k.code {
        Key::Esc => (UiView { popup_input: None, notice: Some("popup cancelled"@), ..u }, UiActionView::Nothing),
        Key::Enter => {
            let cmd = trim(buf);
            let u2 = UiView { popup_input: None, ..u };
            if cmd.len() > 0 {
                (
                    u2,
                    UiActionView::Send(
                        RequestView::ExecuteRaw { command: "run-shell "@ + cmd },
                        FollowUpView::PopupShell(cmd),
                    ),
                )
            } else {
                (u2, UiActionView::Nothing)
            }
        },
        _ => (UiView { popup_input: Some(edit_buffer(buf, k)), ..u }, UiActionView::Nothing),
    }
}

/// A key while a command is typed at the prompt.
pub open spec fn command_key(u: UiView, buf: Seq<char>, k: KeyInput) -> (UiView, UiActionView) {
    match k.code {
        Key::Esc => (UiView { command_mode: None, notice: Some("command cancelled"@), ..u }, UiActionView::Nothing),
        Key::Enter => {
            let cmd = trim(buf);
            let u2 = UiView { command_mode: None, ..u };
            if cmd.len() > 0 {
                (u2, UiActionView::Send(RequestView::ExecuteRaw { command: cmd }, FollowUpView::CommandResult))
            } else {
                (u2, UiActionView::Nothing)
            }
        },
        _ => (UiView { command_mode: Some(edit_buffer(buf, k)), ..u }, UiActionView::Nothing),
    }
}

// ---------------------------------------------------------------------------
// Copy mode
// ---------------------------------------------------------------------------

/// The length in characters of row `row` of the shown lines, 0 past them.
pub open spec fn row_len(lines: Seq<Seq<char>>, row: usize) -> nat {
    if row < lines.len() {
        lines[row as int].len()
    } else {
        0
    }
}

/// The cursor kept on the shown lines.
pub open spec fn clamp_cursor(c: CopyModeState, lines: Seq<Seq<char>>) -> CopyModeState {
    if lines.len() == 0 {
        CopyModeState { cursor_row: 0, cursor_col: 0, ..c }
    } else {
        let row = if c.cursor_row <= lines.len() - 1 {
            c.cursor_row
        } else {
            (lines.len() - 1) as usize
        };
        let max = sat_sub(row_len(lines, row) as usize, 1);
        CopyModeState { cursor_row: row, cursor_col: if c.cursor_col <= max {
            c.cursor_col
        } else {
            max
        }, ..c }
    }
}

/// Copy mode left: scrolling back at the live end.
pub open spec fn leave_copy(u: UiView) -> UiView {
    UiView { copy_mode: None, scroll_mode: false, scroll_offset: 0, ..u }
}

/// A key in copy mode, before the cursor is kept on the lines.
pub open spec fn copy_step(u: UiView, c: CopyModeState, lines: Seq<Seq<char>>, k: Key) -> UiView {
    match k {
        Key::Esc | Key::Char('q') => UiView { notice: Some("copy mode off"@), ..leave_copy(u) },
        Key::Up => if c.cursor_row > 0 {
            UiView { copy_mode: Some(CopyModeState { cursor_row: (c.cursor_row - 1) as usize, ..c }), ..u }
        } else {
            UiView { scroll_mode: true, scroll_offset: sat_add(u.scroll_offset, 1), ..u }
        },
        Key::Down => if c.cursor_row + 1 < lines.len() {
            UiView { copy_mode: Some(CopyModeState { cursor_row: (c.cursor_row + 1) as usize, ..c }), ..u }
        } else if u.scroll_offset > 0 {
            let o = sat_sub(u.scroll_offset, 1);
            UiView { scroll_offset: o, scroll_mode: if o == 0 {
                false
            } else {
                u.scroll_mode
            }, ..u }
        } else {
            u
        },
        Key::Left => UiView { copy_mode: Some(CopyModeState { cursor_col: sat_sub(c.cursor_col, 1), ..c }), ..u },
        Key::Right => UiView { copy_mode: Some(CopyModeState { cursor_col: sat_add(c.cursor_col, 1), ..c }), ..u },
        Key::Home => UiView { copy_mode: Some(CopyModeState { cursor_col: 0, ..c }), ..u },
        Key::End => UiView {
            copy_mode: Some(CopyModeState { cursor_col: sat_sub(row_len(lines, c.cursor_row) as usize, 1), ..c }),
            ..u
        },
        Key::PageUp => UiView { scroll_mode: true, scroll_offset: sat_add(u.scroll_offset, 10), ..u },
        Key::PageDown => {
            let o = sat_sub(u.scroll_offset, 10);
            UiView { scroll_offset: o, scroll_mode: if o == 0 {
                false
            } else {
                u.scroll_mode
            }, ..u }
        },
        Key::Char('v') => if c.anchor is Some {
            UiView { copy_mode: Some(CopyModeState { anchor: None, ..c }), notice: Some("selection cleared"@), ..u }
        } else {
            UiView {
                copy_mode: Some(CopyModeState { anchor: Some((c.cursor_row, c.cursor_col)), ..c }),
                notice: Some("selection started"@),
                ..u
            }
        },
        Key::Enter => {
            let u2 = match yanked(lines, c) {
                Some(y) => UiView { yank_buffer: y, notice: Some("yanked "@ + decimal(y.len()) + " chars"@), ..u },
                None => if c.cursor_row < lines.len() {
                    let l = lines[c.cursor_row as int];
                    UiView { yank_buffer: l, notice: Some("yanked line ("@ + decimal(l.len()) + " chars)"@), ..u }
                } else {
                    u
                },
            };
            leave_copy(u2)
        },
        _ => u,
    }
}

/// A key in copy mode.
pub open spec fn copy_key(u: UiView, c: CopyModeState, lines: Seq<Seq<char>>, k: Key) -> UiView {
    let u2 = copy_step(u, c, lines, k);
    match u2.copy_mode {
        Some(c2) => UiView { copy_mode: Some(clamp_cursor(c2, lines)), ..u2 },
        None => u2,
    }
}

fn line_len(lines: &Vec<String>, row: usize) -> (r: usize)
    ensures
        r == row_len(views_of(lines@), row),
{
    if row < lines.len() {
        chars_of(lines[row].as_str()).len()
    } else {
        0
    }
}

fn clamp_cursor_exec(c: CopyModeState, lines: &Vec<String>) -> (r: CopyModeState)
    ensures
        r == clamp_cursor(c, views_of(lines@)),
{
    if lines.len() == 0 {
        CopyModeState { cursor_row: 0, cursor_col: 0, ..c }
    } else {
        let row = if c.cursor_row <= lines.len() - 1 {
            c.cursor_row
        } else {
            lines.len() - 1
        };
        let max = line_len(lines, row).saturating_sub(1);
        CopyModeState { cursor_row: row, cursor_col: if c.cursor_col <= max {
            c.cursor_col
        } else {
            max
        }, ..c }
    }
}

fn count_note(head: &str, n: usize, tail: &str) -> (r: String)
    ensures
        r@ == head@ + decimal(n as nat) + tail@,
{
    let mut s = lit(head);
    push_decimal(&mut s, n as u64);
    append_str(&mut s, tail);
    s
}

impl UiState {
    fn leave_copy(&mut self)
        ensures
            final(self)@ == leave_copy(old(self)@),
    {
        self.copy_mode = None;
        self.scroll_mode = false;
        self.scroll_offset = 0;
    }

    fn copy_step(&mut self, c: CopyModeState, lines: &Vec<String>, k: Key)
        ensures
            final(self)@ == copy_step(old(self)@, c, views_of(lines@), k),
    {
        match k {
            Key::Esc | Key::Char('q') => {
                self.leave_copy();
                self.notice = Some(lit("copy mode off"));
            },
            Key::Up => {
                if c.cursor_row > 0 {
                    self.copy_mode = Some(CopyModeState { cursor_row: c.cursor_row - 1, ..c });
                } else {
                    self.scroll_mode = true;
                    self.scroll_offset = self.scroll_offset.saturating_add(1);
                }
            },
            Key::Down => {
                if c.cursor_row < lines.len() && lines.len() - c.cursor_row > 1 {
                    self.copy_mode = Some(CopyModeState { cursor_row: c.cursor_row + 1, ..c });
                } else if self.scroll_offset > 0 {
                    self.scroll_offset = self.scroll_offset - 1;
                    if self.scroll_offset == 0 {
                        self.scroll_mode = false;
                    }
                }
            },
            Key::Left => {
                self.copy_mode = Some(CopyModeState { cursor_col: c.cursor_col.saturating_sub(1), ..c });
            },
            Key::Right => {
                self.copy_mode = Some(CopyModeState { cursor_col: c.cursor_col.saturating_add(1), ..c });
            },
            Key::Home => {
                self.copy_mode = Some(CopyModeState { cursor_col: 0, ..c });
            },
            Key::End => {
                let n = line_len(lines, c.cursor_row);
                self.copy_mode = Some(CopyModeState { cursor_col: n.saturating_sub(1), ..c });
            },
            Key::PageUp => {
                self.scroll_mode = true;
                self.scroll_offset = self.scroll_offset.saturating_add(10);
            },
            Key::PageDown => {
                self.scroll_offset = self.scroll_offset.saturating_sub(10);
                if self.scroll_offset == 0 {
                    self.scroll_mode = false;
                }
            },
            Key::Char('v') => {
                if c.anchor.is_some() {
                    self.copy_mode = Some(CopyModeState { anchor: None, ..c });
                    self.notice = Some(lit("selection cleared"));
                } else {
                    self.copy_mode = Some(CopyModeState { anchor: Some((c.cursor_row, c.cursor_col)), ..c });
                    self.notice = Some(lit("selection started"));
                }
            },
            Key::Enter => {
                match yank_selection(lines, &c) {
                    Some(y) => {
                        let n = chars_of(y.as_str()).len();
                        self.notice = Some(count_note("yanked ", n, " chars"));
                        self.yank_buffer = y;
                    },
                    None => {
                        if c.cursor_row < lines.len() {
                            let l = lines[c.cursor_row].clone();
                            let n = chars_of(l.as_str()).len();
                            self.notice = Some(count_note("yanked line (", n, " chars)"));
                            self.yank_buffer = l;
                        }
                    },
                }
                self.leave_copy();
            },
            _ => {},
        }
    }

    fn copy_key(&mut self, c: CopyModeState, lines: &Vec<String>, k: Key)
        ensures
            final(self)@ == copy_key(old(self)@, c, views_of(lines@), k),
    {
        self.copy_step(c, lines, k);
        match self.copy_mode {
            Some(c2) => {
                self.copy_mode = Some(clamp_cursor_exec(c2, lines));
            },
            None => {},
        }
    }
}

// ---------------------------------------------------------------------------
// Prefixed keys and ordinary keys
// ---------------------------------------------------------------------------

/// The lines of the key help popup.
pub open spec fn help_lines() -> Seq<Seq<char>> {
    seq![
        "C-b c    new window"@,
        "C-b \"    horizontal split"@,
        "C-b %    vertical split"@,
        "C-b n/p  next/prev window"@,
        "C-b 0-9  select window"@,
        "C-b o    next pane"@,
        "C-b ;    last pane"@,
        "C-b x    kill pane"@,
        "C-b arr  resize pane"@,
        "C-b [    copy mode"@,
        "C-b ]    paste"@,
        "C-b P    run-shell popup"@,
        "C-b ?    this help"@,
        "C-b :    command prompt"@,
        "C-b d    detach"@,
        "C-b q    quit UI"@,
    ]
}

/// The modes with scrolling back at the live end and the prefix off.
pub open spec fn settle(u: UiView) -> UiView {
    UiView { scroll_offset: 0, scroll_mode: false, prefix: false, ..u }
}

/// The modes with the prefix off.
pub open spec fn unprefix(u: UiView) -> UiView {
    UiView { prefix: false, ..u }
}

/// A key pressed after the prefix.
pub open spec fn prefixed_key(u: UiView, s: SnapshotView, lines: Seq<Seq<char>>, k: Key) -> (UiView, UiActionView) {
    if k == Key::Char('q') {
        (u, UiActionView::Quit)
    } else if k == Key::Char('d') {
        (u, UiActionView::Detach(RequestView::DetachClient { session: s.attached }))
    } else if k == Key::Char('m') {
        (UiView { show_meta: !u.show_meta, prefix: false, ..u }, UiActionView::Nothing)
    } else if k == Key::Char(':') {
        (UiView { command_mode: Some(seq![]), prefix: false, ..u }, UiActionView::Nothing)
    } else if k == Key::Char('[') {
        (
            UiView {
                copy_mode: Some(
                    CopyModeState { cursor_row: sat_sub(lines.len() as usize, 1), cursor_col: 0, anchor: None },
                ),
                scroll_mode: true,
                notice: Some("copy mode on (arrows move, v select, Enter yank, Esc exit)"@),
                prefix: false,
                ..u
            },
            UiActionView::Nothing,
        )
    } else if k == Key::Char(']') {
        if u.yank_buffer.len() > 0 {
            match active_pane_target(s) {
                None => (unprefix(u), UiActionView::Nothing),
                Some((sn, wn, pid)) => (
                    unprefix(u),
                    UiActionView::Send(
                        RequestView::SendKeys {
                            session: Some(sn),
                            window: Some(wn),
                            pane: Some(pid),
                            keys: seq![u.yank_buffer],
                            literal: true,
                        },
                        FollowUpView::Paste,
                    ),
                ),
            }
        } else {
            (UiView { notice: Some("yank buffer empty"@), prefix: false, ..u }, UiActionView::Nothing)
        }
    } else if k == Key::Char('o') {
        (settle(u), match next_pane_request(s) {
            Some(q) => UiActionView::Send(q, FollowUpView::Ignore),
            None => UiActionView::Nothing,
        })
    } else if k == Key::Char('P') {
        (
            UiView {
                popup_input: Some(seq![]),
                notice: Some("popup: enter shell command, Enter to run, Esc to cancel"@),
                prefix: false,
                ..u
            },
            UiActionView::Nothing,
        )
    } else if k == Key::Char('f') {
        match active_pane_target(s) {
            None => (unprefix(u), UiActionView::Nothing),
            Some((sn, wn, pid)) => (
                unprefix(u),
                UiActionView::Send(
                    RequestView::ToggleFloating { session: Some(sn), window: Some(wn), pane: Some(pid) },
                    FollowUpView::Notice("toggled floating"@),
                ),
            ),
        }
    } else if k == Key::Char('?') {
        (UiView { popup: Some(("dmux keys"@, help_lines())), prefix: false, ..u }, UiActionView::Nothing)
    } else if k == Key::Char(';') {
        match active_pane_target(s) {
            None => (unprefix(u), UiActionView::Nothing),
            Some((sn, wn, _)) => (
                settle(u),
                UiActionView::Send(RequestView::LastPane { session: Some(sn), window: Some(wn) }, FollowUpView::Ignore),
            ),
        }
    } else if k matches Key::Char(d) && '0' <= d && d <= '9' {
        match active_pane_target(s) {
            None => (unprefix(u), UiActionView::Nothing),
            Some((sn, _, _)) => (
                settle(u),
                UiActionView::Send(
                    RequestView::SelectWindow { session: Some(sn), window: seq![k->Char_0] },
                    FollowUpView::Ignore,
                ),
            ),
        }
    } else {
        match prefix_action(s, k) {
            PrefixActionView::Notice(n) => (UiView { notice: Some(n), ..settle(u) }, UiActionView::Nothing),
            PrefixActionView::Send(q, ok) => (settle(u), UiActionView::Send(q, FollowUpView::Notice(ok))),
            PrefixActionView::Nothing => (settle(u), UiActionView::Nothing),
        }
    }
}

/// An ordinary key: the prefix, scrolling, or keys for the active pane.
pub open spec fn plain_key(u: UiView, s: SnapshotView, prefix_char: char, k: KeyInput) -> (UiView, UiActionView) {
    if k.ctrl && k.code == Key::Char(prefix_char) {
        (UiView { prefix: true, ..u }, UiActionView::Nothing)
    } else if k.code == Key::PageUp {
        let o = sat_add(u.scroll_offset, 10);
        (
            UiView { scroll_mode: true, scroll_offset: o, notice: Some("scroll mode offset="@ + decimal(o as nat)), ..u },
            UiActionView::Nothing,
        )
    } else if k.code == Key::PageDown {
        let o = sat_sub(u.scroll_offset, 10);
        (
            UiView {
                scroll_offset: o,
                scroll_mode: if o == 0 {
                    false
                } else {
                    u.scroll_mode
                },
                notice: Some("scroll mode offset="@ + decimal(o as nat)),
                ..u
            },
            UiActionView::Nothing,
        )
    } else if k.code == Key::Home {
        (
            UiView {
                scroll_mode: true,
                scroll_offset: (usize::MAX / 2) as usize,
                notice: Some("scroll mode: top"@),
                ..u
            },
            UiActionView::Nothing,
        )
    } else if k.code == Key::End {
        (UiView { scroll_mode: false, scroll_offset: 0, notice: Some("scroll mode: live"@), ..u }, UiActionView::Nothing)
    } else if k.code == Key::Esc && u.scroll_mode {
        (UiView { scroll_mode: false, scroll_offset: 0, notice: Some("scroll mode off"@), ..u }, UiActionView::Nothing)
    } else {
        let u2 = if u.scroll_offset > 0 {
            UiView { scroll_offset: 0, scroll_mode: false, ..u }
        } else {
            u
        };
        let u3 = UiView { notice: None, ..u2 };
        match (key_literal(k), active_pane_target(s)) {
            (Some(text), Some((sn, wn, pid))) => (
                u3,
                UiActionView::Send(
                    RequestView::SendKeys {
                        session: Some(sn),
                        window: Some(wn),
                        pane: Some(pid),
                        keys: seq![text],
                        literal: true,
                    },
                    FollowUpView::FailOnError,
                ),
            ),
            _ => (u3, UiActionView::Nothing),
        }
    }
}

/// What a key does: the modes afterwards and what the client does next.
/// An open popup takes the key first, then the popup's command line, the
/// command prompt, copy mode and the prefix; other keys go to the active
/// pane. `lines` are the lines the active pane shows.
pub open spec fn ui_key(
    u: UiView,
    s: SnapshotView,
    lines: Seq<Seq<char>>,
    prefix_char: char,
    k: KeyInput,
) -> (UiView, UiActionView) {
    if u.popup is Some {
        if k.code == Key::Esc || k.code == Key::Enter || k.code == Key::Char('q') {
            (UiView { popup: None, ..u }, UiActionView::Nothing)
        } else {
            (u, UiActionView::Nothing)
        }
    } else if u.popup_input is Some {
        popup_input_key(u, u.popup_input->0, k)
    } else if u.command_mode is Some {
        command_key(u, u.command_mode->0, k)
    } else if u.copy_mode is Some {
        (copy_key(u, u.copy_mode->0, lines, k.code), UiActionView::Nothing)
    } else if u.prefix {
        prefixed_key(u, s, lines, k.code)
    } else {
        plain_key(u, s, prefix_char, k)
    }
}

/// What the answer to a request does: the modes afterwards, or the error
/// that ends the client.
pub open spec fn ui_reply(u: UiView, f: FollowUpView, r: ResponseView) -> Result<UiView, Seq<char>> {
    match f {
        FollowUpView::Ignore => Ok(u),
        FollowUpView::Notice(ok) => Ok(UiView { notice: Some(response_notice(r, ok)), ..u }),
        FollowUpView::PopupShell(cmd) => match r {
            ResponseView::Commands(ls) => Ok(UiView { popup: Some((cmd, ls)), ..u }),
            ResponseView::Error { message } => Ok(UiView { notice: Some("run-shell error: "@ + message), ..u }),
            _ => Ok(UiView { notice: Some("run-shell: no output"@), ..u }),
        },
        FollowUpView::CommandResult => match r {
            ResponseView::Error { message } => Ok(UiView { notice: Some("error: "@ + message), ..u }),
            ResponseView::CommandAccepted { command } => Ok(UiView { notice: Some("ok: "@ + command), ..u }),
            _ => Ok(UiView { notice: Some("command executed"@), ..u }),
        },
        FollowUpView::Paste => match r {
            ResponseView::Error { message } => Ok(UiView { notice: Some("paste error: "@ + message), ..u }),
            _ => Ok(UiView { notice: Some("pasted yanked text"@), ..u }),
        },
        FollowUpView::FailOnError => match r {
            ResponseView::Error { message } => Err(message),
            _ => Ok(u),
        },
        FollowUpView::ResizeSync => match r {
            ResponseView::Error { message } => Ok(UiView { notice: Some("resize sync error: "@ + message), ..u }),
            _ => Ok(u),
        },
    }
}


fn help_popup() -> (r: PopupState)
    ensures
        popup_view(Some(r)) == Some(("dmux keys"@, help_lines())),
{
    let mut v: Vec<String> = Vec::new();
    v.push(lit("C-b c    new window"));
    v.push(lit("C-b \"    horizontal split"));
    v.push(lit("C-b %    vertical split"));
    v.push(lit("C-b n/p  next/prev window"));
    v.push(lit("C-b 0-9  select window"));
    v.push(lit("C-b o    next pane"));
    v.push(lit("C-b ;    last pane"));
    v.push(lit("C-b x    kill pane"));
    v.push(lit("C-b arr  resize pane"));
    v.push(lit("C-b [    copy mode"));
    v.push(lit("C-b ]    paste"));
    v.push(lit("C-b P    run-shell popup"));
    v.push(lit("C-b ?    this help"));
    v.push(lit("C-b :    command prompt"));
    v.push(lit("C-b d    detach"));
    v.push(lit("C-b q    quit UI"));
    proof {
        assert(views_of(v@) =~= help_lines());
    }
    PopupState { title: lit("dmux keys"), lines: v }
}

fn one_key(t: String) -> (r: Vec<String>)
    ensures
        views_of(r@) == seq![t@],
{
    let mut v: Vec<String> = Vec::new();
    v.push(t);
    proof {
        assert(views_of(v@) =~= seq![t@]);
    }
    v
}

fn char_text(c: char) -> (r: String)
    ensures
        r@ == seq![c],
{
    let mut t = String::new();
    push_char(&mut t, c);
    proof {
        assert(t@ =~= seq![c]);
    }
    t
}

impl UiState {
    fn settle(&mut self)
        ensures
            final(self)@ == settle(old(self)@),
    {
        self.scroll_offset = 0;
        self.scroll_mode = false;
        self.prefix = false;
    }

    fn prefixed_key(&mut self, s: &UiSnapshot, lines: &Vec<String>, k: Key) -> (r: UiAction)
        ensures
            (final(self)@, r@) == prefixed_key(old(self)@, s@, views_of(lines@), k),
    {
        if k == Key::Char('q') {
            return UiAction::Quit;
        }
        if k == Key::Char('d') {
            return UiAction::Detach(Request::DetachClient { session: clone_opt(&s.attached_session) });
        }
        if k == Key::Char('m') {
            self.show_meta = !self.show_meta;
            self.prefix = false;
            return UiAction::Nothing;
        }
        if k == Key::Char(':') {
            self.command_mode = Some(String::new());
            self.prefix = false;
            return UiAction::Nothing;
        }
        if k == Key::Char('[') {
            self.copy_mode = Some(CopyModeState { cursor_row: lines.len().saturating_sub(1), cursor_col: 0, anchor: None });
            self.scroll_mode = true;
            self.notice = Some(lit("copy mode on (arrows move, v select, Enter yank, Esc exit)"));
            self.prefix = false;
            return UiAction::Nothing;
        }
        if k == Key::Char(']') {
            self.prefix = false;
            if !str_is_empty(self.yank_buffer.as_str()) {
                return match active_pane_target_exec(s) {
                    None => UiAction::Nothing,
                    Some((sn, wn, pid)) => UiAction::Send(
                        Request::SendKeys {
                            session: Some(sn),
                            window: Some(wn),
                            pane: Some(pid),
                            keys: one_key(self.yank_buffer.clone()),
                            literal: true,
                        },
                        FollowUp::Paste,
                    ),
                };
            } else {
                self.notice = Some(lit("yank buffer empty"));
                return UiAction::Nothing;
            }
        }
        if k == Key::Char('o') {
            let q = next_pane_request_exec(s);
            self.settle();
            return match q {
                Some(q) => UiAction::Send(q, FollowUp::Ignore),
                None => UiAction::Nothing,
            };
        }
        if k == Key::Char('P') {
            self.popup_input = Some(String::new());
            self.notice = Some(lit("popup: enter shell command, Enter to run, Esc to cancel"));
            self.prefix = false;
            return UiAction::Nothing;
        }
        if k == Key::Char('f') {
            self.prefix = false;
            return match active_pane_target_exec(s) {
                None => UiAction::Nothing,
                Some((sn, wn, pid)) => UiAction::Send(
                    Request::ToggleFloating { session: Some(sn), window: Some(wn), pane: Some(pid) },
                    FollowUp::Notice(lit("toggled floating")),
                ),
            };
        }
        if k == Key::Char('?') {
            self.popup = Some(help_popup());
            self.prefix = false;
            return UiAction::Nothing;
        }
        if k == Key::Char(';') {
            return match active_pane_target_exec(s) {
                None => {
                    self.prefix = false;
                    UiAction::Nothing
                },
                Some((sn, wn, _)) => {
                    self.settle();
                    UiAction::Send(Request::LastPane { session: Some(sn), window: Some(wn) }, FollowUp::Ignore)
                },
            };
        }
        match k {
            Key::Char(d) => {
                if '0' <= d && d <= '9' {
                    return match active_pane_target_exec(s) {
                        None => {
                            self.prefix = false;
                            UiAction::Nothing
                        },
                        Some((sn, _, _)) => {
                            self.settle();
                            UiAction::Send(
                                Request::SelectWindow { session: Some(sn), window: char_text(d) },
                                FollowUp::Ignore,
                            )
                        },
                    };
                }
            },
            _ => {},
        }
        let a = prefix_action_exec(s, k);
        self.settle();
        match a {
            PrefixAction::Notice(n) => {
                self.notice = Some(n);
                UiAction::Nothing
            },
            PrefixAction::Send(q, ok) => UiAction::Send(q, FollowUp::Notice(ok)),
            PrefixAction::Nothing => UiAction::Nothing,
        }
    }

    fn plain_key(&mut self, s: &UiSnapshot, prefix_char: char, k: KeyInput) -> (r: UiAction)
        ensures
            (final(self)@, r@) == plain_key(old(self)@, s@, prefix_char, k),
    {
        if k.ctrl && k.code == Key::Char(prefix_char) {
            self.prefix = true;
            return UiAction::Nothing;
        }
        if k.code == Key::PageUp {
            self.scroll_mode = true;
            self.scroll_offset = self.scroll_offset.saturating_add(10);
            let mut n = lit("scroll mode offset=");
            push_decimal(&mut n, self.scroll_offset as u64);
            self.notice = Some(n);
            return UiAction::Nothing;
        }
        if k.code == Key::PageDown {
            self.scroll_offset = self.scroll_offset.saturating_sub(10);
            if self.scroll_offset == 0 {
                self.scroll_mode = false;
            }
            let mut n = lit("scroll mode offset=");
            push_decimal(&mut n, self.scroll_offset as u64);
            self.notice = Some(n);
            return UiAction::Nothing;
        }
        if k.code == Key::Home {
            self.scroll_mode = true;
            self.scroll_offset = usize::MAX / 2;
            self.notice = Some(lit("scroll mode: top"));
            return UiAction::Nothing;
        }
        if k.code == Key::End {
            self.scroll_mode = false;
            self.scroll_offset = 0;
            self.notice = Some(lit("scroll mode: live"));
            return UiAction::Nothing;
        }
        if k.code == Key::Esc && self.scroll_mode {
            self.scroll_mode = false;
            self.scroll_offset = 0;
            self.notice = Some(lit("scroll mode off"));
            return UiAction::Nothing;
        }
        if self.scroll_offset > 0 {
            self.scroll_offset = 0;
            self.scroll_mode = false;
        }
        self.notice = None;
        match (key_event_to_literal(k), active_pane_target_exec(s)) {
            (Some(text), Some((sn, wn, pid))) => UiAction::Send(
                Request::SendKeys {
                    session: Some(sn),
                    window: Some(wn),
                    pane: Some(pid),
                    keys: one_key(text),
                    literal: true,
                },
                FollowUp::FailOnError,
            ),
            _ => UiAction::Nothing,
        }
    }

    /// What a key does: the modes change, and the client quits, sends a
    /// request or does nothing more.
    pub fn handle_key(&mut self, s: &UiSnapshot, lines: &Vec<String>, prefix_char: char, k: KeyInput) -> (r: UiAction)
        ensures
            (final(self)@, r@) == ui_key(old(self)@, s@, views_of(lines@), prefix_char, k),
    {
        if self.popup.is_some() {
            if k.code == Key::Esc || k.code == Key::Enter || k.code == Key::Char('q') {
                self.popup = None;
            }
            return UiAction::Nothing;
        }
        match &self.popup_input {
            Some(buf) => {
                let ghost b = buf@;
                match k.code {
                    Key::Esc => {
                        self.popup_input = None;
                        self.notice = Some(lit("popup cancelled"));
                        return UiAction::Nothing;
                    },
                    Key::Enter => {
                        let cmd = trim_exec(buf.as_str());
                        self.popup_input = None;
                        if !str_is_empty(cmd.as_str()) {
                            let command = concat2("run-shell ", cmd.as_str());
                            return UiAction::Send(Request::ExecuteRaw { command }, FollowUp::PopupShell(cmd));
                        }
                        return UiAction::Nothing;
                    },
                    _ => {
                        let nb = edit_buffer_exec(buf, k);
                        self.popup_input = Some(nb);
                        return UiAction::Nothing;
                    },
                }
            },
            None => {},
        }
        match &self.command_mode {
            Some(buf) => {
                match k.code {
                    Key::Esc => {
                        self.command_mode = None;
                        self.notice = Some(lit("command cancelled"));
                        return UiAction::Nothing;
                    },
                    Key::Enter => {
                        let cmd = trim_exec(buf.as_str());
                        self.command_mode = None;
                        if !str_is_empty(cmd.as_str()) {
                            return UiAction::Send(Request::ExecuteRaw { command: cmd }, FollowUp::CommandResult);
                        }
                        return UiAction::Nothing;
                    },
                    _ => {
                        let nb = edit_buffer_exec(buf, k);
                        self.command_mode = Some(nb);
                        return UiAction::Nothing;
                    },
                }
            },
            None => {},
        }
        match self.copy_mode {
            Some(c) => {
                self.copy_key(c, lines, k.code);
                return UiAction::Nothing;
            },
            None => {},
        }
        if self.prefix {
            self.prefixed_key(s, lines, k.code)
        } else {
            self.plain_key(s, prefix_char, k)
        }
    }

    /// What the answer to a request does; `Err` with the message that ends
    /// the client.
    pub fn handle_reply(&mut self, f: FollowUp, r: Response) -> (out: Result<(), String>)
        ensures
            match (out, ui_reply(old(self)@, f@, r@)) {
                (Ok(()), Ok(u)) => final(self)@ == u,
                (Err(m), Err(w)) => m@ == w,
                _ => false,
            },
    {
        match f {
            FollowUp::Ignore => Ok(()),
            FollowUp::Notice(ok) => {
                let n = match &r {
                    Response::Error { message } => concat2("error: ", message.as_str()),
                    _ => ok,
                };
                self.notice = Some(n);
                Ok(())
            },
            FollowUp::PopupShell(cmd) => {
                match r {
                    Response::Commands(ls) => {
                        self.popup = Some(PopupState { title: cmd, lines: ls });
                    },
                    Response::Error { message } => {
                        self.notice = Some(concat2("run-shell error: ", message.as_str()));
                    },
                    _ => {
                        self.notice = Some(lit("run-shell: no output"));
                    },
                }
                Ok(())
            },
            FollowUp::CommandResult => {
                match r {
                    Response::Error { message } => {
                        self.notice = Some(concat2("error: ", message.as_str()));
                    },
                    Response::CommandAccepted { command } => {
                        self.notice = Some(concat2("ok: ", command.as_str()));
                    },
                    _ => {
                        self.notice = Some(lit("command executed"));
                    },
                }
                Ok(())
            },
            FollowUp::Paste => {
                match r {
                    Response::Error { message } => {
                        self.notice = Some(concat2("paste error: ", message.as_str()));
                    },
                    _ => {
                        self.notice = Some(lit("pasted yanked text"));
                    },
                }
                Ok(())
            },
            FollowUp::FailOnError => match r {
                Response::Error { message } => Err(message),
                _ => Ok(()),
            },
            FollowUp::ResizeSync => {
                match r {
                    Response::Error { message } => {
                        self.notice = Some(concat2("resize sync error: ", message.as_str()));
                    },
                    _ => {},
                }
                Ok(())
            },
        }
    }
}
} // verus!
