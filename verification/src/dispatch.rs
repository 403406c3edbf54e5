//! The server's answer to each request: the decisions that take the state
//! from one request to the next and say which work the runtime does.
use vstd::prelude::*;
use crate::text::{
    views_of, join_with, str_eq, owned, lit, concat2, concat3, append_str, decimal, u64_to_string,
    usize_to_string, lower, to_lower, lines_of, split_lines, trim, trim_exec,
    starts_with_char, first_index, lemma_first_index, lemma_first_index_is, lemma_first_index_none,
    parse_unsigned, parse_u64, opt_str, opt_view, ws_tokens,
};
use crate::layout::{SplitNode, WindowLayout, ResizeDirection};
use crate::proto::{
    Request, RequestView, Response, ResponseView, SplitOrientation, ResizeDir, SplitNodeInfo,
    SessionInfo, SessionInfoView, WindowInfo, WindowInfoView, PaneInfo, PaneInfoView, ClientInfo,
    ClientInfoView, NameValue, NameValueView, session_infos_view, window_infos_view,
    pane_infos_view, client_infos_view, name_values_view,
};
use crate::state::{
    ServerState, Session, StateView, SessionView, WindowView, PaneView, StateErrorView, StateError,
    ClientView, WindowRecord, WindowRecordView, PaneRecord, PaneRecordView, ClientRecordView,
    pane_total, session_pane_total, server_fits, error_text, session_named, client_record,
    spec_attach_session, spec_detach_client, spec_lock_session, spec_create_session,
    spec_kill_session, spec_rename_session, spec_kill_server, windows_pane_ids, sessions_pane_ids,
    spec_create_window, spec_rename_window, spec_kill_window, spec_select_adjacent_window,
    spec_select_last_window, spec_select_window, sel_sessions, window_records, ids_of, res,
    spec_split_window, spec_kill_pane, pane_command, sel_target, same_pane, flip_floating,
    spec_select_last_pane, spec_send_keys, spec_resize_pane, spec_set_pane_output,
};
use crate::tables::{table_insert, table_show, log_push};
use crate::effects::{Effect, EffectView, Pending, PendingView, Step, StepView, Event};
use crate::compat::{
    CompatState, CompatView, spec_compat, execute_compat_command, failed, accepted, recorded, listed,
    or_empty, pane_listing,
};
use crate::command::{raw_request, parse_raw_command};

verus! {

// ---------------------------------------------------------------------------
// Between the wire types and the model
// ---------------------------------------------------------------------------

/// The stacking direction that a split orientation asks for.
pub open spec fn layout_of(o: SplitOrientation) -> WindowLayout {
    match o {
        SplitOrientation::Horizontal => WindowLayout::Horizontal,
        SplitOrientation::Vertical => WindowLayout::Vertical,
    }
}

/// The stacking direction that a split orientation asks for.
pub fn layout_of_exec(o: SplitOrientation) -> (r: WindowLayout)
    ensures
        r == layout_of(o),
{
    match o {
        SplitOrientation::Horizontal => WindowLayout::Horizontal,
        SplitOrientation::Vertical => WindowLayout::Vertical,
    }
}

/// The orientation sent for a stacking direction.
pub open spec fn orientation_of(l: WindowLayout) -> SplitOrientation {
    match l {
        WindowLayout::Horizontal => SplitOrientation::Horizontal,
        WindowLayout::Vertical => SplitOrientation::Vertical,
    }
}

/// The orientation sent for a stacking direction.
pub fn orientation_of_exec(l: WindowLayout) -> (r: SplitOrientation)
    ensures
        r == orientation_of(l),
{
    match l {
        WindowLayout::Horizontal => SplitOrientation::Horizontal,
        WindowLayout::Vertical => SplitOrientation::Vertical,
    }
}

/// The resize direction of the model for one of the wire.
pub open spec fn direction_of(d: ResizeDir) -> ResizeDirection {
    match d {
        ResizeDir::Up => ResizeDirection::Up,
        ResizeDir::Down => ResizeDirection::Down,
        ResizeDir::Left => ResizeDirection::Left,
        ResizeDir::Right => ResizeDirection::Right,
    }
}

fn direction_of_exec(d: ResizeDir) -> (r: ResizeDirection)
    ensures
        r == direction_of(d),
{
    match d {
        ResizeDir::Up => ResizeDirection::Up,
        ResizeDir::Down => ResizeDirection::Down,
        ResizeDir::Left => ResizeDirection::Left,
        ResizeDir::Right => ResizeDirection::Right,
    }
}

/// A split tree as sent to clients.
pub open spec fn split_info(n: SplitNode) -> SplitNodeInfo
    decreases n,
{
    match n {
        SplitNode::Leaf { pane_id } => SplitNodeInfo::Leaf { pane_id },
        SplitNode::Split { orientation, split_ratio, first, second } => SplitNodeInfo::Split {
            orientation: orientation_of(orientation),
            split_ratio,
            first: Box::new(split_info(*first)),
            second: Box::new(split_info(*second)),
        },
    }
}

/// A split tree as sent to clients.
pub fn core_split_to_proto(node: SplitNode) -> (r: SplitNodeInfo)
    ensures
        r == split_info(node),
    decreases node,
{
    match node {
        SplitNode::Leaf { pane_id } => SplitNodeInfo::Leaf { pane_id },
        SplitNode::Split { orientation, split_ratio, first, second } => SplitNodeInfo::Split {
            orientation: orientation_of_exec(orientation),
            split_ratio,
            first: Box::new(core_split_to_proto(*first)),
            second: Box::new(core_split_to_proto(*second)),
        },
    }
}

/// The line of the session list for a session.
pub open spec fn session_info(sv: SessionView) -> SessionInfoView {
    SessionInfoView {
        id: sv.id,
        name: sv.name,
        windows: sv.windows.len() as usize,
        panes: pane_total(sv.windows) as usize,
    }
}

/// The line of the window list for a window record.
pub open spec fn window_info(r: WindowRecordView) -> WindowInfoView {
    WindowInfoView {
        session_id: r.session_id,
        session_name: r.session_name,
        window_id: r.window_id,
        window_name: r.window_name,
        pane_count: r.pane_count,
        active: r.active,
        layout: orientation_of(r.layout),
        layout_tree: match r.layout_tree {
            Some(t) => Some(split_info(t)),
            None => None,
        },
    }
}

/// The line of the pane list for a pane record.
pub open spec fn pane_info(r: PaneRecordView) -> PaneInfoView {
    PaneInfoView {
        session_id: r.session_id,
        session_name: r.session_name,
        window_id: r.window_id,
        window_name: r.window_name,
        pane_id: r.pane_id,
        pane_title: r.pane_title,
        active: r.active,
        last_input: r.last_input,
        last_output: r.last_output,
        rows: r.rows,
        cols: r.cols,
        floating: r.floating,
    }
}

/// The line of the client list for a client record.
pub open spec fn client_info(r: ClientRecordView) -> ClientInfoView {
    ClientInfoView {
        id: r.id,
        name: r.name,
        attached_session: r.attached_session,
        locked: r.locked,
        suspended: r.suspended,
        server_locked: r.server_locked,
    }
}

/// Named values for a table.
pub open spec fn name_values(t: Seq<(Seq<char>, Seq<char>)>) -> Seq<NameValueView> {
    t.map_values(|e: (Seq<char>, Seq<char>)| NameValueView { name: e.0, value: e.1 })
}

fn session_infos(sessions: &[Session]) -> (r: Vec<SessionInfo>)
    requires
        forall|i: int| 0 <= i < sessions@.len() ==> #[trigger] pane_total(sessions@[i]@.windows) <= usize::MAX,
    ensures
        session_infos_view(r@) == crate::state::sessions_view(sessions@).map_values(|sv: SessionView| session_info(sv)),
{
    let ghost ss = crate::state::sessions_view(sessions@);
    let mut out: Vec<SessionInfo> = Vec::new();
    let mut i: usize = 0;
    while i < sessions.len()
        invariant
            i <= sessions.len(),
            ss == crate::state::sessions_view(sessions@),
            forall|x: int| 0 <= x < sessions@.len() ==> #[trigger] pane_total(sessions@[x]@.windows) <= usize::MAX,
            session_infos_view(out@) == ss.map_values(|sv: SessionView| session_info(sv)).take(i as int),
        decreases sessions.len() - i,
    {
        let sv = &sessions[i];
        let panes = match session_pane_total(sv) {
            Some(n) => n,
            None => 0,
        };
        let info = SessionInfo { id: sv.id, name: sv.name.clone(), windows: sv.windows.len(), panes };
        let ghost prev = session_infos_view(out@);
        out.push(info);
        proof {
            let all = ss.map_values(|sv: SessionView| session_info(sv));
            assert(info@ == all[i as int]);
            assert(session_infos_view(out@) =~= prev.push(all[i as int]));
            assert(all.take(i + 1) =~= all.take(i as int).push(all[i as int]));
        }
        i = i + 1;
    }
    proof {
        assert(ss.map_values(|sv: SessionView| session_info(sv)).take(i as int) =~= ss.map_values(
            |sv: SessionView| session_info(sv),
        ));
    }
    out
}

fn window_infos(v: Vec<WindowRecord>) -> (r: Vec<WindowInfo>)
    ensures
        window_infos_view(r@) == crate::state::window_records_view(v@).map_values(|w: WindowRecordView| window_info(w)),
{
    let ghost all = crate::state::window_records_view(v@).map_values(|w: WindowRecordView| window_info(w));
    let mut out: Vec<WindowInfo> = Vec::new();
    let mut i: usize = 0;
    while i < v.len()
        invariant
            i <= v.len(),
            all == crate::state::window_records_view(v@).map_values(|w: WindowRecordView| window_info(w)),
            window_infos_view(out@) == all.take(i as int),
        decreases v.len() - i,
    {
        let w = &v[i];
        let tree = match &w.layout_tree {
            Some(t) => Some(core_split_to_proto(crate::layout::clone_node(t))),
            None => None,
        };
        let info = WindowInfo {
            session_id: w.session_id,
            session_name: w.session_name.clone(),
            window_id: w.window_id,
            window_name: w.window_name.clone(),
            pane_count: w.pane_count,
            active: w.active,
            layout: orientation_of_exec(w.layout),
            layout_tree: tree,
        };
        let ghost prev = window_infos_view(out@);
        out.push(info);
        proof {
            assert(info@ == all[i as int]);
            assert(window_infos_view(out@) =~= prev.push(all[i as int]));
            assert(all.take(i + 1) =~= all.take(i as int).push(all[i as int]));
        }
        i = i + 1;
    }
    proof {
        assert(all.take(i as int) =~= all);
    }
    out
}

fn pane_infos(v: Vec<PaneRecord>) -> (r: Vec<PaneInfo>)
    ensures
        pane_infos_view(r@) == crate::state::pane_records_view(v@).map_values(|p: PaneRecordView| pane_info(p)),
{
    let ghost all = crate::state::pane_records_view(v@).map_values(|p: PaneRecordView| pane_info(p));
    let mut out: Vec<PaneInfo> = Vec::new();
    let mut i: usize = 0;
    while i < v.len()
        invariant
            i <= v.len(),
            all == crate::state::pane_records_view(v@).map_values(|p: PaneRecordView| pane_info(p)),
            pane_infos_view(out@) == all.take(i as int),
        decreases v.len() - i,
    {
        let p = &v[i];
        let info = PaneInfo {
            session_id: p.session_id,
            session_name: p.session_name.clone(),
            window_id: p.window_id,
            window_name: p.window_name.clone(),
            pane_id: p.pane_id,
            pane_title: p.pane_title.clone(),
            active: p.active,
            last_input: crate::text::clone_opt(&p.last_input),
            last_output: crate::text::clone_opt(&p.last_output),
            rows: p.rows,
            cols: p.cols,
            floating: p.floating,
        };
        let ghost prev = pane_infos_view(out@);
        out.push(info);
        proof {
            assert(info@ == all[i as int]);
            assert(pane_infos_view(out@) =~= prev.push(all[i as int]));
            assert(all.take(i + 1) =~= all.take(i as int).push(all[i as int]));
        }
        i = i + 1;
    }
    proof {
        assert(all.take(i as int) =~= all);
    }
    out
}

fn name_values_exec(v: Vec<(String, String)>) -> (r: Vec<NameValue>)
    ensures
        name_values_view(r@) == name_values(crate::tables::table_view(v@)),
{
    let ghost all = name_values(crate::tables::table_view(v@));
    let mut out: Vec<NameValue> = Vec::new();
    let mut i: usize = 0;
    while i < v.len()
        invariant
            i <= v.len(),
            all == name_values(crate::tables::table_view(v@)),
            name_values_view(out@) == all.take(i as int),
        decreases v.len() - i,
    {
        let nv = NameValue { name: v[i].0.clone(), value: v[i].1.clone() };
        let ghost prev = name_values_view(out@);
        out.push(nv);
        proof {
            assert(nv@ == all[i as int]);
            assert(name_values_view(out@) =~= prev.push(all[i as int]));
            assert(all.take(i + 1) =~= all.take(i as int).push(all[i as int]));
        }
        i = i + 1;
    }
    proof {
        assert(all.take(i as int) =~= all);
    }
    out
}

/// Whether a request can change the state (and so the state is saved after
/// it).
pub open spec fn mutates(q: RequestView) -> bool {
    !(q is Ping || q is HasSession || q is ListSessions || q is ListCommands || q is ListClients
        || q is ListWindows || q is ListPanes || q is ShowMessages || q is ShowOptions
        || q is ShowEnvironment || q is CapturePane)
}

/// Whether a request can change the state.
pub fn is_mutating(req: &Request) -> (r: bool)
    ensures
        r == mutates(req@),
{
    match req {
        Request::Ping | Request::HasSession { .. } | Request::ListSessions | Request::ListCommands
        | Request::ListClients | Request::ListWindows { .. } | Request::ListPanes { .. }
        | Request::ShowMessages | Request::ShowOptions { .. } | Request::ShowEnvironment { .. }
        | Request::CapturePane { .. } => false,
        _ => true,
    }
}

// ---------------------------------------------------------------------------
// Keys as bytes for a shell
// ---------------------------------------------------------------------------

/// The ASCII upper-case form of a character.
pub open spec fn ascii_upper(c: char) -> char {
    if 'a' <= c <= 'z' {
        ((c as u8) - 32) as char
    } else {
        c
    }
}

/// Whether a byte is an ASCII letter.
pub open spec fn is_letter(b: u8) -> bool {
    (65 <= b <= 90) || (97 <= b <= 122)
}

/// Whether a key (in lower case) names the enter key.
pub open spec fn is_enter(l: Seq<char>) -> bool {
    l == "enter"@ || l == "c-m"@
}

/// The bytes that key `i` of `keys` sends: named keys give their control
/// byte, `C-x` gives the control character of the letter `x`, and any
/// other key gives its text, then a space unless an enter key follows.
pub open spec fn key_bytes(keys: Seq<Seq<char>>, i: int) -> Seq<u8> {
    let k = keys[i];
    let l = lower(k);
    if is_enter(l) {
        seq![10u8]
    } else if l == "space"@ {
        seq![32u8]
    } else if l == "tab"@ || l == "c-i"@ {
        seq![9u8]
    } else if l == "bspace"@ || l == "backspace"@ {
        seq![127u8]
    } else if l.len() >= 2 && l.take(2) == "c-"@ && (vstd::utf8::encode_utf8(k).len() as usize) == 3 {
        if k.len() > 2 && is_letter(ascii_upper(k[2]) as u8) {
            seq![((ascii_upper(k[2]) as u8) - 64) as u8]
        } else {
            seq![]
        }
    } else {
        vstd::utf8::encode_utf8(k) + if i + 1 < keys.len() && !is_enter(lower(keys[i + 1])) {
            seq![32u8]
        } else {
            seq![]
        }
    }
}

/// The bytes that the first `n` keys send.
pub open spec fn keys_bytes(keys: Seq<Seq<char>>, n: int) -> Seq<u8>
    decreases n,
{
    if n <= 0 {
        seq![]
    } else {
        keys_bytes(keys, n - 1) + key_bytes(keys, n - 1)
    }
}

/// The bytes that keys send to a shell: literally, their text run
/// together; otherwise key by key.
pub open spec fn spec_keys_to_bytes(keys: Seq<Seq<char>>, literal: bool) -> Seq<u8> {
    if literal {
        vstd::utf8::encode_utf8(join_with(keys, ""@))
    } else {
        keys_bytes(keys, keys.len() as int)
    }
}

fn push_bytes(out: &mut Vec<u8>, s: &str)
    ensures
        final(out)@ == old(out)@ + vstd::utf8::encode_utf8(s@),
{
    let b = s.as_bytes();
    let mut i: usize = 0;
    while i < b.len()
        invariant
            i <= b@.len(),
            b@ == vstd::utf8::encode_utf8(s@),
            out@ == old(out)@ + b@.take(i as int),
        decreases b@.len() - i,
    {
        out.push(b[i]);
        proof {
            assert(out@ =~= old(out)@ + b@.take(i + 1));
        }
        i = i + 1;
    }
    proof {
        assert(b@.take(i as int) =~= b@);
    }
}

fn upper_exec(c: char) -> (r: char)
    ensures
        r == ascii_upper(c),
{
    if 'a' <= c && c <= 'z' {
        let b: u8 = c as u8;
        (b - 32) as char
    } else {
        c
    }
}

fn key_bytes_exec(keys: &[String], i: usize, out: &mut Vec<u8>)
    requires
        i < keys@.len(),
    ensures
        final(out)@ == old(out)@ + key_bytes(views_of(keys@), i as int),
{
    let ghost kv = views_of(keys@);
    let key = keys[i].as_str();
    let low = to_lower(key);
    let l = low.as_str();
    if str_eq(l, "enter") || str_eq(l, "c-m") {
        out.push(10);
    } else if str_eq(l, "space") {
        out.push(32);
    } else if str_eq(l, "tab") || str_eq(l, "c-i") {
        out.push(9);
    } else if str_eq(l, "bspace") || str_eq(l, "backspace") {
        out.push(127);
    } else {
        let lc = crate::text::chars_of(l);
        let prefixed = lc.len() >= 2 && lc[0] == 'c' && lc[1] == '-';
        proof {
            reveal_strlit("c-");
            if lc@.len() >= 2 {
                if lc@[0] == 'c' && lc@[1] == '-' {
                    assert(lc@.take(2) =~= "c-"@);
                }
                if lc@.take(2) == "c-"@ {
                    assert(lc@.take(2)[0] == 'c');
                    assert(lc@.take(2)[1] == '-');
                }
            }
        }
        if prefixed && key.len() == 3 {
            let kc = crate::text::chars_of(key);
            if kc.len() > 2 {
                let up = upper_exec(kc[2]);
                let b: u8 = #[verifier::truncate] (up as u8);
                if (65 <= b && b <= 90) || (97 <= b && b <= 122) {
                    out.push(b - 64);
                }
            }
        } else {
            let ghost before = out@;
            push_bytes(out, key);
            if i + 1 < keys.len() {
                let next = to_lower(keys[i + 1].as_str());
                if !str_eq(next.as_str(), "enter") && !str_eq(next.as_str(), "c-m") {
                    out.push(32);
                }
            }
            proof {
                assert(out@ =~= before + key_bytes(kv, i as int));
            }
        }
    }
    proof {
        assert(out@ =~= old(out)@ + key_bytes(kv, i as int));
    }
}

/// The bytes that keys send to a pane's shell.
pub fn keys_to_bytes(keys: &[String], literal: bool) -> (r: Vec<u8>)
    ensures
        r@ == spec_keys_to_bytes(views_of(keys@), literal),
{
    let mut out: Vec<u8> = Vec::new();
    if literal {
        let joined = crate::text::join_strings(keys, "");
        push_bytes(&mut out, joined.as_str());
        proof {
            assert(out@ =~= vstd::utf8::encode_utf8(joined@));
        }
        return out;
    }
    let ghost kv = views_of(keys@);
    let mut i: usize = 0;
    while i < keys.len()
        invariant
            i <= keys@.len(),
            kv == views_of(keys@),
            out@ == keys_bytes(kv, i as int),
        decreases keys@.len() - i,
    {
        key_bytes_exec(keys, i, &mut out);
        i = i + 1;
    }
    out
}

// ---------------------------------------------------------------------------
// Sessions, the client, options and messages
// ---------------------------------------------------------------------------

/// The commands that `list-commands` names.
pub open spec fn command_list() -> Seq<Seq<char>> {
    seq!["attach-session"@, "switch-client"@, "detach-client"@, "list-clients"@, "lock-client"@, "lock-server"@, "lock-session"@, "suspend-client"@, "display-message"@, "show-messages"@, "set-option"@, "show-options"@, "set-environment"@, "show-environment"@, "kill-server"@, "start-server"@, "new-session"@, "kill-session"@, "has-session"@, "rename-session"@, "new-window"@, "rename-window"@, "kill-window"@, "next-window"@, "previous-window"@, "last-window"@, "select-window"@, "split-window"@, "kill-pane"@, "select-pane"@, "last-pane"@, "send-keys"@, "list-sessions"@, "list-commands"@, "list-windows"@, "list-panes"@]
}

fn command_list_exec() -> (r: Vec<String>)
    ensures
        views_of(r@) == command_list(),
{
    let mut v: Vec<String> = Vec::new();
    v.push(lit("attach-session"));
    v.push(lit("switch-client"));
    v.push(lit("detach-client"));
    v.push(lit("list-clients"));
    v.push(lit("lock-client"));
    v.push(lit("lock-server"));
    v.push(lit("lock-session"));
    v.push(lit("suspend-client"));
    v.push(lit("display-message"));
    v.push(lit("show-messages"));
    v.push(lit("set-option"));
    v.push(lit("show-options"));
    v.push(lit("set-environment"));
    v.push(lit("show-environment"));
    v.push(lit("kill-server"));
    v.push(lit("start-server"));
    v.push(lit("new-session"));
    v.push(lit("kill-session"));
    v.push(lit("has-session"));
    v.push(lit("rename-session"));
    v.push(lit("new-window"));
    v.push(lit("rename-window"));
    v.push(lit("kill-window"));
    v.push(lit("next-window"));
    v.push(lit("previous-window"));
    v.push(lit("last-window"));
    v.push(lit("select-window"));
    v.push(lit("split-window"));
    v.push(lit("kill-pane"));
    v.push(lit("select-pane"));
    v.push(lit("last-pane"));
    v.push(lit("send-keys"));
    v.push(lit("list-sessions"));
    v.push(lit("list-commands"));
    v.push(lit("list-windows"));
    v.push(lit("list-panes"));
    proof {
        assert(views_of(v@) =~= command_list());
    }
    v
}

/// An answer.
pub open spec fn answer(r: ResponseView) -> StepView {
    StepView::Reply(r)
}

/// The answer to a command on the state that failed.
pub open spec fn error_step(e: StateErrorView) -> StepView {
    StepView::Reply(ResponseView::Error { message: error_text(e) })
}

/// What the requests on sessions, the client, options, messages and the
/// server do: the state afterwards and the next step; `None` for the other
/// requests.
pub open spec fn spec_session_request(s: StateView, q: RequestView) -> Option<(StateView, StepView)> {
    match q {
        RequestView::Ping => Some((s, answer(ResponseView::Pong))),
        RequestView::HasSession { name } => Some(
            (
                s,
                answer(
                    ResponseView::SessionCheck {
                        name,
                        exists: first_index(s.sessions, session_named(name)) is Some,
                    },
                ),
            ),
        ),
        RequestView::AttachSession { session } => {
            let (t, r) = spec_attach_session(s, session);
            Some(
                (
                    t,
                    match r {
                        Ok(sv) => answer(ResponseView::SessionAttached { name: sv.name }),
                        Err(e) => error_step(e),
                    },
                ),
            )
        },
        RequestView::SwitchClient { session } => {
            let (t, r) = spec_attach_session(s, session);
            Some(
                (
                    t,
                    match r {
                        Ok(sv) => answer(ResponseView::ClientSwitched { from: s.attached_session, to: sv.name }),
                        Err(e) => error_step(e),
                    },
                ),
            )
        },
        RequestView::DetachClient { session } => {
            let (t, r) = spec_detach_client(s, session);
            Some(
                (
                    t,
                    match r {
                        Ok(n) => answer(ResponseView::ClientDetached { name: n }),
                        Err(e) => error_step(e),
                    },
                ),
            )
        },
        RequestView::LockClient => Some(
            (
                StateView { client: ClientView { locked: true, ..s.client }, ..s },
                answer(ResponseView::ClientLocked { name: s.client.name }),
            ),
        ),
        RequestView::SuspendClient => Some(
            (
                StateView { client: ClientView { suspended: true, ..s.client }, ..s },
                answer(ResponseView::ClientSuspended { name: s.client.name }),
            ),
        ),
        RequestView::LockServer => Some((StateView { server_locked: true, ..s }, answer(ResponseView::ServerLocked))),
        RequestView::LockSession { session } => {
            let (t, r) = spec_lock_session(s, session);
            Some(
                (
                    t,
                    match r {
                        Ok(n) => answer(ResponseView::SessionLocked { name: n }),
                        Err(e) => error_step(e),
                    },
                ),
            )
        },
        RequestView::DisplayMessage { message } => Some(
            (
                StateView { message_log: log_push(s.message_log, message), ..s },
                answer(ResponseView::MessageDisplayed { message }),
            ),
        ),
        RequestView::ShowMessages => Some((s, answer(ResponseView::Messages(s.message_log)))),
        RequestView::SetOption { name, value } => Some(
            (
                StateView { options: table_insert(s.options, name, value), ..s },
                answer(ResponseView::OptionSet { name, value }),
            ),
        ),
        RequestView::ShowOptions { name } => Some(
            (s, answer(ResponseView::Options(name_values(table_show(s.options, name))))),
        ),
        RequestView::SetEnvironment { name, value } => Some(
            (
                StateView { environment: table_insert(s.environment, name, value), ..s },
                answer(ResponseView::EnvironmentSet { name, value }),
            ),
        ),
        RequestView::ShowEnvironment { name } => Some(
            (s, answer(ResponseView::Environment(name_values(table_show(s.environment, name))))),
        ),
        RequestView::CreateSession { name } => {
            let (t, r) = spec_create_session(s, name);
            Some(
                (
                    t,
                    match r {
                        Ok(sv) => {
                            let ok = ResponseView::SessionCreated { id: sv.id, name: sv.name };
                            if sv.windows.len() > 0 && sv.windows[0].panes.len() > 0 {
                                StepView::Perform(
                                    EffectView::EnsurePane(sv.windows[0].panes[0].id),
                                    PendingView::ReplyUnlessFailed(ok),
                                )
                            } else {
                                answer(ok)
                            }
                        },
                        Err(e) => error_step(e),
                    },
                ),
            )
        },
        RequestView::KillSession { name } => {
            let (t, r) = spec_kill_session(s, name);
            Some(
                (
                    t,
                    match r {
                        Ok(sv) => StepView::Perform(
                            EffectView::RemovePanes(windows_pane_ids(sv.windows)),
                            PendingView::Reply(ResponseView::SessionKilled { id: sv.id, name: sv.name }),
                        ),
                        Err(e) => error_step(e),
                    },
                ),
            )
        },
        RequestView::RenameSession { name, new_name } => {
            let (t, r) = spec_rename_session(s, name, new_name);
            Some(
                (
                    t,
                    match r {
                        Ok(sv) => answer(ResponseView::SessionRenamed { id: sv.id, old_name: name, new_name: sv.name }),
                        Err(e) => error_step(e),
                    },
                ),
            )
        },
        RequestView::KillServer => Some(
            (
                spec_kill_server(s),
                StepView::Perform(
                    EffectView::RemovePanes(sessions_pane_ids(s.sessions)),
                    PendingView::Reply(
                        ResponseView::CommandAccepted {
                            command: "kill-server cleared_sessions="@ + decimal(s.sessions.len()),
                        },
                    ),
                ),
            ),
        ),
        RequestView::StartServer => Some((s, answer(ResponseView::CommandAccepted { command: "start-server ok"@ }))),
        RequestView::ListSessions => Some(
            (s, answer(ResponseView::Sessions(s.sessions.map_values(|sv: SessionView| session_info(sv))))),
        ),
        RequestView::ListCommands => Some((s, answer(ResponseView::Commands(command_list())))),
        RequestView::ListClients => Some((s, answer(ResponseView::Clients(seq![client_info(client_record(s))])))),
        _ => None,
    }
}

fn error_reply(e: StateError) -> (r: Step)
    ensures
        r@ == error_step(e@),
{
    Step::Reply(Response::Error { message: e.message() })
}

fn first_pane_id(sv: &Session) -> (r: Option<u64>)
    ensures
        match r {
            Some(id) => sv@.windows.len() > 0 && sv@.windows[0].panes.len() > 0 && id == sv@.windows[0].panes[0].id,
            None => !(sv@.windows.len() > 0 && sv@.windows[0].panes.len() > 0),
        },
{
    if sv.windows.len() > 0 && sv.windows[0].panes.len() > 0 {
        Some(sv.windows[0].panes[0].id)
    } else {
        None
    }
}

fn window_pane_ids(ws: &Vec<crate::state::Window>) -> (r: Vec<u64>)
    ensures
        r@ == windows_pane_ids(crate::state::windows_view(ws@)),
{
    let ghost wv = crate::state::windows_view(ws@);
    let mut out: Vec<u64> = Vec::new();
    let mut j: usize = 0;
    while j < ws.len()
        invariant
            j <= ws.len(),
            wv == crate::state::windows_view(ws@),
            out@ == windows_pane_ids(wv.take(j as int)),
        decreases ws.len() - j,
    {
        let ghost before = out@;
        let ps = &ws[j].panes;
        let ghost pv = wv[j as int].panes;
        assert(pv == crate::state::panes_view(ps@));
        let mut k: usize = 0;
        while k < ps.len()
            invariant
                k <= ps.len(),
                j < ws.len(),
                pv == wv[j as int].panes,
                pv == crate::state::panes_view(ps@),
                wv == crate::state::windows_view(ws@),
                out@ == before + pv.take(k as int).map_values(|p: PaneView| p.id),
            decreases ps.len() - k,
        {
            assert(pv[k as int].id == ps@[k as int].id);
            let ghost prev = out@;
            out.push(ps[k].id);
            proof {
                assert(out@ =~= prev.push(pv[k as int].id));
                assert(pv.take(k + 1).map_values(|p: PaneView| p.id) =~= pv.take(k as int).map_values(|p: PaneView| p.id).push(pv[k as int].id));
                assert(out@ =~= before + pv.take(k + 1).map_values(|p: PaneView| p.id));
            }
            k = k + 1;
        }
        proof {
            assert(pv.take(k as int) =~= pv);
            assert(wv.take(j + 1).drop_last() =~= wv.take(j as int));
            assert(out@ =~= windows_pane_ids(wv.take(j + 1)));
        }
        j = j + 1;
    }
    proof {
        assert(wv.take(j as int) =~= wv);
    }
    out
}

/// Whether a request may need the state's bounds: ids left to hand out,
/// windows small enough for the layout and resize arithmetic, and pane
/// counts that fit a `usize`.  Requests that only read or retarget what
/// exists do not.
pub open spec fn needs_room(q: RequestView) -> bool {
    match q {
        RequestView::Ping | RequestView::HasSession { .. } | RequestView::AttachSession { .. }
        | RequestView::SwitchClient { .. } | RequestView::DetachClient { .. } | RequestView::LockClient
        | RequestView::LockServer | RequestView::LockSession { .. } | RequestView::SuspendClient
        | RequestView::DisplayMessage { .. } | RequestView::ShowMessages | RequestView::SetOption { .. }
        | RequestView::ShowOptions { .. } | RequestView::SetEnvironment { .. } | RequestView::ShowEnvironment { .. }
        | RequestView::KillSession { .. } | RequestView::RenameSession { .. } | RequestView::KillServer
        | RequestView::StartServer | RequestView::ListCommands | RequestView::ListClients
        | RequestView::RenameWindow { .. } | RequestView::NextWindow { .. } | RequestView::PreviousWindow { .. }
        | RequestView::LastWindow { .. } | RequestView::SelectWindow { .. } | RequestView::SelectPane { .. }
        | RequestView::LastPane { .. } | RequestView::SendKeys { .. } | RequestView::ToggleFloating { .. }
        | RequestView::KillWindow { .. } | RequestView::ExecuteRaw { .. }
        | RequestView::ListSessions | RequestView::ListWindows { .. } | RequestView::ListPanes { .. }
        | RequestView::CapturePane { .. } => false,
        RequestView::CompatCommand { name, .. } => crate::compat::compat_needs_room(name),
        _ => true,
    }
}

/// Whether a request may need the state's bounds.
pub fn needs_room_exec(q: &Request) -> (r: bool)
    ensures
        r == needs_room(q@),
{
    match q {
        Request::Ping | Request::HasSession { .. } | Request::AttachSession { .. }
        | Request::SwitchClient { .. } | Request::DetachClient { .. } | Request::LockClient
        | Request::LockServer | Request::LockSession { .. } | Request::SuspendClient
        | Request::DisplayMessage { .. } | Request::ShowMessages | Request::SetOption { .. }
        | Request::ShowOptions { .. } | Request::SetEnvironment { .. } | Request::ShowEnvironment { .. }
        | Request::KillSession { .. } | Request::RenameSession { .. } | Request::KillServer
        | Request::StartServer | Request::ListCommands | Request::ListClients
        | Request::RenameWindow { .. } | Request::NextWindow { .. } | Request::PreviousWindow { .. }
        | Request::LastWindow { .. } | Request::SelectWindow { .. } | Request::SelectPane { .. }
        | Request::LastPane { .. } | Request::SendKeys { .. } | Request::ToggleFloating { .. }
        | Request::KillWindow { .. } | Request::ExecuteRaw { .. }
        | Request::ListSessions | Request::ListWindows { .. } | Request::ListPanes { .. }
        | Request::CapturePane { .. } => false,
        Request::CompatCommand { name, .. } => crate::compat::compat_needs_room_exec(name.as_str()),
        _ => true,
    }
}

/// Whether the state is within what a request needs: a request that needs
/// room needs the state's bounds, and listing the sessions needs their
/// pane counts to fit a `usize`.
pub open spec fn request_fits(q: RequestView, s: StateView) -> bool {
    &&& needs_room(q) ==> server_fits(s)
    &&& q is ListSessions ==> crate::state::counts_fit(s)
}

/// Answers the requests on sessions, the client, options, messages and the
/// server; hands any other request back.
fn session_request(state: &mut ServerState, q: Request) -> (r: Result<Step, Request>)
    requires
        request_fits(q@, old(state)@),
    ensures
        match spec_session_request(old(state)@, q@) {
            Some((t, st)) => r matches Ok(step) && final(state)@ == t && step@ == st,
            None => r matches Err(q2) && q2@ == q@ && final(state)@ == old(state)@,
        },
{
    match q {
        Request::Ping => Ok(Step::Reply(Response::Pong)),
        Request::HasSession { name } => {
            let exists = state.has_session(name.as_str());
            Ok(Step::Reply(Response::SessionCheck { name, exists }))
        },
        Request::AttachSession { session } => match state.attach_session(opt_str(&session)) {
            Ok(sv) => Ok(Step::Reply(Response::SessionAttached { name: sv.name })),
            Err(e) => Ok(error_reply(e)),
        },
        Request::SwitchClient { session } => match state.switch_client(opt_str(&session)) {
            Ok((from, to)) => Ok(Step::Reply(Response::ClientSwitched { from, to: to.name })),
            Err(e) => Ok(error_reply(e)),
        },
        Request::DetachClient { session } => match state.detach_client(opt_str(&session)) {
            Ok(name) => Ok(Step::Reply(Response::ClientDetached { name })),
            Err(e) => Ok(error_reply(e)),
        },
        Request::LockClient => {
            let client = state.lock_client();
            Ok(Step::Reply(Response::ClientLocked { name: client.name }))
        },
        Request::SuspendClient => {
            let client = state.suspend_client();
            Ok(Step::Reply(Response::ClientSuspended { name: client.name }))
        },
        Request::LockServer => {
            let _ = state.lock_server();
            Ok(Step::Reply(Response::ServerLocked))
        },
        Request::LockSession { session } => match state.lock_session(opt_str(&session)) {
            Ok(name) => Ok(Step::Reply(Response::SessionLocked { name })),
            Err(e) => Ok(error_reply(e)),
        },
        Request::DisplayMessage { message } => {
            let message = state.display_message(message);
            Ok(Step::Reply(Response::MessageDisplayed { message }))
        },
        Request::ShowMessages => Ok(Step::Reply(Response::Messages(state.show_messages()))),
        Request::SetOption { name, value } => {
            let (name, value) = state.set_option(name.as_str(), value.as_str());
            Ok(Step::Reply(Response::OptionSet { name, value }))
        },
        Request::ShowOptions { name } => {
            let v = state.show_options(opt_str(&name));
            Ok(Step::Reply(Response::Options(name_values_exec(v))))
        },
        Request::SetEnvironment { name, value } => {
            let (name, value) = state.set_environment(name.as_str(), value.as_str());
            Ok(Step::Reply(Response::EnvironmentSet { name, value }))
        },
        Request::ShowEnvironment { name } => {
            let v = state.show_environment(opt_str(&name));
            Ok(Step::Reply(Response::Environment(name_values_exec(v))))
        },
        Request::CreateSession { name } => match state.create_session(name) {
            Ok(sv) => {
                let first = first_pane_id(&sv);
                let ok = Response::SessionCreated { id: sv.id, name: sv.name };
                match first {
                    Some(id) => Ok(Step::Perform(Effect::EnsurePane(id), Pending::ReplyUnlessFailed(ok))),
                    None => Ok(Step::Reply(ok)),
                }
            },
            Err(e) => Ok(error_reply(e)),
        },
        Request::KillSession { name } => match state.kill_session(name.as_str()) {
            Ok(sv) => {
                let ids = window_pane_ids(&sv.windows);
                Ok(
                    Step::Perform(
                        Effect::RemovePanes(ids),
                        Pending::Reply(Response::SessionKilled { id: sv.id, name: sv.name }),
                    ),
                )
            },
            Err(e) => Ok(error_reply(e)),
        },
        Request::RenameSession { name, new_name } => match state.rename_session(name.as_str(), new_name.as_str()) {
            Ok(sv) => Ok(Step::Reply(Response::SessionRenamed { id: sv.id, old_name: name, new_name: sv.name })),
            Err(e) => Ok(error_reply(e)),
        },
        Request::KillServer => {
            let ids = state.pane_ids();
            let removed = state.kill_server();
            let command = concat2("kill-server cleared_sessions=", usize_to_string(removed).as_str());
            Ok(Step::Perform(Effect::RemovePanes(ids), Pending::Reply(Response::CommandAccepted { command })))
        },
        Request::StartServer => {
            let _ = state.start_server();
            Ok(Step::Reply(Response::CommandAccepted { command: lit("start-server ok") }))
        },
        Request::ListSessions => {
            let sl = state.sessions();
            proof {
                assert forall|i: int| 0 <= i < sl@.len() implies #[trigger] pane_total(sl@[i]@.windows) <= usize::MAX by {
                    assert(crate::state::sessions_view(sl@)[i] == sl@[i]@);
                }
            }
            let infos = session_infos(sl);
            Ok(Step::Reply(Response::Sessions(infos)))
        },
        Request::ListCommands => Ok(Step::Reply(Response::Commands(command_list_exec()))),
        Request::ListClients => {
            let clients = state.list_clients();
            let c = &clients[0];
            let info = ClientInfo {
                id: c.id,
                name: c.name.clone(),
                attached_session: crate::text::clone_opt(&c.attached_session),
                locked: c.locked,
                suspended: c.suspended,
                server_locked: c.server_locked,
            };
            let mut v: Vec<ClientInfo> = Vec::new();
            v.push(info);
            proof {
                assert(client_infos_view(v@) =~= seq![client_info(client_record(state@))]);
            }
            Ok(Step::Reply(Response::Clients(v)))
        },
        other => Err(other),
    }
}

// ---------------------------------------------------------------------------
// Windows
// ---------------------------------------------------------------------------

/// The answer naming a selected window.
pub open spec fn window_selected<T>(r: Result<(SessionView, WindowView), StateErrorView>) -> StepView {
    match r {
        Ok((sv, w)) => answer(ResponseView::WindowSelected { session: sv.name, id: w.id, name: w.name }),
        Err(e) => error_step(e),
    }
}

/// What the requests on windows do; `None` for the other requests.
pub open spec fn spec_window_request(s: StateView, q: RequestView) -> Option<(StateView, StepView)> {
    match q {
        RequestView::CreateWindow { session, name } => {
            let (t, r) = spec_create_window(s, session, name);
            Some(
                (
                    t,
                    match r {
                        Ok((sv, w)) => {
                            let ok = ResponseView::WindowCreated { session: sv.name, id: w.id, name: w.name };
                            if w.panes.len() > 0 {
                                StepView::Perform(EffectView::EnsurePane(w.panes[0].id), PendingView::ReplyUnlessFailed(ok))
                            } else {
                                answer(ok)
                            }
                        },
                        Err(e) => error_step(e),
                    },
                ),
            )
        },
        RequestView::RenameWindow { session, window, new_name } => {
            let (t, r) = spec_rename_window(s, session, window, new_name);
            Some(
                (
                    t,
                    match r {
                        Ok((sv, w, old_name)) => answer(
                            ResponseView::WindowRenamed { session: sv.name, id: w.id, old_name, new_name },
                        ),
                        Err(e) => error_step(e),
                    },
                ),
            )
        },
        RequestView::KillWindow { session, window } => {
            let (t, r) = spec_kill_window(s, session, window);
            Some(
                (
                    t,
                    match r {
                        Ok((sv, w)) => StepView::Perform(
                            EffectView::RemovePanes(ids_of(w.panes)),
                            PendingView::Reply(ResponseView::WindowKilled { session: sv.name, id: w.id, name: w.name }),
                        ),
                        Err(e) => error_step(e),
                    },
                ),
            )
        },
        RequestView::NextWindow { session } => {
            let (t, r) = spec_select_adjacent_window(s, session, true);
            Some((t, window_selected::<()>(r)))
        },
        RequestView::PreviousWindow { session } => {
            let (t, r) = spec_select_adjacent_window(s, session, false);
            Some((t, window_selected::<()>(r)))
        },
        RequestView::LastWindow { session } => {
            let (t, r) = spec_select_last_window(s, session);
            Some((t, window_selected::<()>(r)))
        },
        RequestView::SelectWindow { session, window } => {
            let (t, r) = spec_select_window(s, session, window);
            Some((t, window_selected::<()>(r)))
        },
        RequestView::ListWindows { session } => Some(
            (
                s,
                match sel_sessions(s, session) {
                    Ok(ss) => answer(
                        ResponseView::Windows(window_records(ss).map_values(|w: WindowRecordView| window_info(w))),
                    ),
                    Err(e) => error_step(e),
                },
            ),
        ),
        _ => None,
    }
}

fn selected(r: Result<(Session, crate::state::Window), StateError>) -> (st: Step)
    ensures
        st@ == window_selected::<()>(res(r)),
{
    match r {
        Ok((sv, w)) => Step::Reply(Response::WindowSelected { session: sv.name, id: w.id, name: w.name }),
        Err(e) => error_reply(e),
    }
}

/// Answers the requests on windows; hands any other request back.
fn window_request(state: &mut ServerState, q: Request) -> (r: Result<Step, Request>)
    requires
        needs_room(q@) ==> server_fits(old(state)@),
    ensures
        match spec_window_request(old(state)@, q@) {
            Some((t, st)) => r matches Ok(step) && final(state)@ == t && step@ == st,
            None => r matches Err(q2) && q2@ == q@ && final(state)@ == old(state)@,
        },
{
    match q {
        Request::CreateWindow { session, name } => match state.create_window(opt_str(&session), name) {
            Ok((sv, w)) => {
                let first = if w.panes.len() > 0 {
                    Some(w.panes[0].id)
                } else {
                    None
                };
                let ok = Response::WindowCreated { session: sv.name, id: w.id, name: w.name };
                match first {
                    Some(id) => Ok(Step::Perform(Effect::EnsurePane(id), Pending::ReplyUnlessFailed(ok))),
                    None => Ok(Step::Reply(ok)),
                }
            },
            Err(e) => Ok(error_reply(e)),
        },
        Request::RenameWindow { session, window, new_name } => match state.rename_window(
            opt_str(&session),
            opt_str(&window),
            new_name.as_str(),
        ) {
            Ok((sv, w, old_name)) => Ok(
                Step::Reply(Response::WindowRenamed { session: sv.name, id: w.id, old_name, new_name }),
            ),
            Err(e) => Ok(error_reply(e)),
        },
        Request::KillWindow { session, window } => match state.kill_window(opt_str(&session), opt_str(&window)) {
            Ok((sv, w)) => {
                let ghost pv = crate::state::panes_view(w.panes@);
                let mut ids: Vec<u64> = Vec::new();
                let mut k: usize = 0;
                while k < w.panes.len()
                    invariant
                        k <= w.panes.len(),
                        pv == crate::state::panes_view(w.panes@),
                        ids@ == ids_of(pv).take(k as int),
                    decreases w.panes.len() - k,
                {
                    ids.push(w.panes[k].id);
                    proof {
                        assert(ids@ =~= ids_of(pv).take(k + 1));
                    }
                    k = k + 1;
                }
                proof {
                    assert(ids@ =~= ids_of(pv));
                }
                Ok(
                    Step::Perform(
                        Effect::RemovePanes(ids),
                        Pending::Reply(Response::WindowKilled { session: sv.name, id: w.id, name: w.name }),
                    ),
                )
            },
            Err(e) => Ok(error_reply(e)),
        },
        Request::NextWindow { session } => Ok(selected(state.select_next_window(opt_str(&session)))),
        Request::PreviousWindow { session } => Ok(selected(state.select_previous_window(opt_str(&session)))),
        Request::LastWindow { session } => Ok(selected(state.select_last_window(opt_str(&session)))),
        Request::SelectWindow { session, window } => Ok(
            selected(state.select_window(opt_str(&session), window.as_str())),
        ),
        Request::ListWindows { session } => match state.list_windows(opt_str(&session)) {
            Ok(v) => Ok(Step::Reply(Response::Windows(window_infos(v)))),
            Err(e) => Ok(error_reply(e)),
        },
        other => Err(other),
    }
}

// ---------------------------------------------------------------------------
// Panes
// ---------------------------------------------------------------------------

/// The answer naming a selected pane.
pub open spec fn pane_selected(r: Result<(SessionView, WindowView, PaneView), StateErrorView>) -> StepView {
    match r {
        Ok((sv, w, p)) => answer(
            ResponseView::PaneSelected { session: sv.name, window_id: w.id, pane_id: p.id, title: p.title },
        ),
        Err(e) => error_step(e),
    }
}

/// What the requests on panes do; `None` for the other requests.
pub open spec fn spec_pane_request(s: StateView, q: RequestView) -> Option<(StateView, StepView)> {
    match q {
        RequestView::SplitWindow { session, window, title, orientation } => {
            let (t, r) = spec_split_window(s, session, window, title, layout_of(orientation));
            Some(
                (
                    t,
                    match r {
                        Ok((sv, w, p)) => StepView::Perform(
                            EffectView::EnsurePane(p.id),
                            PendingView::ReplyUnlessFailed(
                                ResponseView::PaneCreated { session: sv.name, window_id: w.id, pane_id: p.id, title: p.title },
                            ),
                        ),
                        Err(e) => error_step(e),
                    },
                ),
            )
        },
        RequestView::KillPane { session, window, pane } => {
            let (t, r) = spec_kill_pane(s, session, window, pane);
            Some(
                (
                    t,
                    match r {
                        Ok((sv, w, p)) => StepView::Perform(
                            EffectView::RemovePanes(seq![p.id]),
                            PendingView::Reply(
                                ResponseView::PaneKilled { session: sv.name, window_id: w.id, pane_id: p.id, title: p.title },
                            ),
                        ),
                        Err(e) => error_step(e),
                    },
                ),
            )
        },
        RequestView::SelectPane { session, window, pane } => {
            let (t, r) = pane_command(s, sel_target(s, session, window, Some(pane), false), same_pane(), true);
            Some((t, pane_selected(r)))
        },
        RequestView::LastPane { session, window } => {
            let (t, r) = spec_select_last_pane(s, session, window);
            Some((t, pane_selected(r)))
        },
        RequestView::SendKeys { session, window, pane, keys, literal } => {
            let (t, r) = spec_send_keys(s, sel_target(s, session, window, pane, true), keys, literal, None);
            Some(
                (
                    t,
                    match r {
                        Ok((sv, w, p, payload)) => StepView::Perform(
                            EffectView::SendKeys { pane_id: p.id, keys, literal },
                            PendingView::KeysSent {
                                pane_id: p.id,
                                reply: ResponseView::KeysSent { session: sv.name, window_id: w.id, pane_id: p.id, payload },
                            },
                        ),
                        Err(e) => error_step(e),
                    },
                ),
            )
        },
        RequestView::ResizePane { session, window, pane, direction, amount } => {
            let (t, r) = spec_resize_pane(s, session, window, pane, direction_of(direction), amount);
            Some(
                (
                    t,
                    match r {
                        Ok((sv, w, p)) => {
                            let ok = ResponseView::PaneResized {
                                session: sv.name,
                                window_id: w.id,
                                pane_id: p.id,
                                rows: p.rows,
                                cols: p.cols,
                            };
                            if p.rows > 0 && p.cols > 0 {
                                StepView::Perform(
                                    EffectView::ResizePtys { pane_ids: seq![p.id], rows: p.rows, cols: p.cols },
                                    PendingView::Reply(ok),
                                )
                            } else {
                                answer(ok)
                            }
                        },
                        Err(e) => error_step(e),
                    },
                ),
            )
        },
        RequestView::ToggleFloating { session, window, pane } => {
            let (t, r) = pane_command(s, sel_target(s, session, window, pane, true), flip_floating(), false);
            Some(
                (
                    t,
                    match r {
                        Ok((_, _, p)) => answer(ResponseView::PaneFloated { pane_id: p.id, floating: p.floating }),
                        Err(e) => error_step(e),
                    },
                ),
            )
        },
        RequestView::ListPanes { session, window } => Some(
            (s, StepView::Perform(EffectView::SnapshotOutputs, PendingView::ListPanes { session, window })),
        ),
        RequestView::CapturePane { session, window, pane, lines } => Some(
            (
                s,
                StepView::Perform(EffectView::SnapshotOutputs, PendingView::CapturePane { session, window, pane, lines }),
            ),
        ),
        _ => None,
    }
}

fn pane_chosen(r: Result<(Session, crate::state::Window, crate::state::Pane), StateError>) -> (st: Step)
    ensures
        st@ == pane_selected(res(r)),
{
    match r {
        Ok((sv, w, p)) => Step::Reply(
            Response::PaneSelected { session: sv.name, window_id: w.id, pane_id: p.id, title: p.title },
        ),
        Err(e) => error_reply(e),
    }
}

/// Answers the requests on panes; hands any other request back.
#[verifier::spinoff_prover]
#[verifier::rlimit(40)]
fn pane_request(state: &mut ServerState, q: Request) -> (r: Result<Step, Request>)
    requires
        needs_room(q@) ==> server_fits(old(state)@),
    ensures
        match spec_pane_request(old(state)@, q@) {
            Some((t, st)) => r matches Ok(step) && final(state)@ == t && step@ == st,
            None => r matches Err(q2) && q2@ == q@ && final(state)@ == old(state)@,
        },
{
    match q {
        Request::SplitWindow { session, window, title, orientation } => match state.split_window(
            opt_str(&session),
            opt_str(&window),
            title,
            layout_of_exec(orientation),
        ) {
            Ok((sv, w, p)) => Ok(
                Step::Perform(
                    Effect::EnsurePane(p.id),
                    Pending::ReplyUnlessFailed(
                        Response::PaneCreated { session: sv.name, window_id: w.id, pane_id: p.id, title: p.title },
                    ),
                ),
            ),
            Err(e) => Ok(error_reply(e)),
        },
        Request::KillPane { session, window, pane } => match state.kill_pane(
            opt_str(&session),
            opt_str(&window),
            opt_str(&pane),
        ) {
            Ok((sv, w, p)) => {
                let mut ids: Vec<u64> = Vec::new();
                ids.push(p.id);
                proof {
                    assert(ids@ =~= seq![p.id]);
                }
                Ok(
                    Step::Perform(
                        Effect::RemovePanes(ids),
                        Pending::Reply(
                            Response::PaneKilled { session: sv.name, window_id: w.id, pane_id: p.id, title: p.title },
                        ),
                    ),
                )
            },
            Err(e) => Ok(error_reply(e)),
        },
        Request::SelectPane { session, window, pane } => Ok(
            pane_chosen(state.select_pane(opt_str(&session), opt_str(&window), pane.as_str())),
        ),
        Request::LastPane { session, window } => Ok(
            pane_chosen(state.select_last_pane(opt_str(&session), opt_str(&window))),
        ),
        Request::SendKeys { session, window, pane, keys, literal } => match state.send_keys(
            opt_str(&session),
            opt_str(&window),
            opt_str(&pane),
            keys.as_slice(),
            literal,
            None,
        ) {
            Ok((sv, w, p, payload)) => Ok(
                Step::Perform(
                    Effect::SendKeys { pane_id: p.id, keys, literal },
                    Pending::KeysSent {
                        pane_id: p.id,
                        reply: Response::KeysSent { session: sv.name, window_id: w.id, pane_id: p.id, payload },
                    },
                ),
            ),
            Err(e) => Ok(error_reply(e)),
        },
        Request::ResizePane { session, window, pane, direction, amount } => {
            proof {
                crate::state::lemma_fits_targets(state@, session.deep_view(), window.deep_view(), pane.deep_view());
            }
            match state.resize_pane(
                opt_str(&session),
                opt_str(&window),
                opt_str(&pane),
                direction_of_exec(direction),
                amount,
            ) {
                Ok((sv, w, p)) => {
                    let ok = Response::PaneResized {
                        session: sv.name,
                        window_id: w.id,
                        pane_id: p.id,
                        rows: p.rows,
                        cols: p.cols,
                    };
                    if p.rows > 0 && p.cols > 0 {
                        let mut ids: Vec<u64> = Vec::new();
                        ids.push(p.id);
                        proof {
                            assert(ids@ =~= seq![p.id]);
                        }
                        Ok(Step::Perform(Effect::ResizePtys { pane_ids: ids, rows: p.rows, cols: p.cols }, Pending::Reply(ok)))
                    } else {
                        Ok(Step::Reply(ok))
                    }
                },
                Err(e) => Ok(error_reply(e)),
            }
        },
        Request::ToggleFloating { session, window, pane } => match state.toggle_floating(
            opt_str(&session),
            opt_str(&window),
            opt_str(&pane),
        ) {
            Ok((_s, _w, p)) => Ok(Step::Reply(Response::PaneFloated { pane_id: p.id, floating: p.floating })),
            Err(e) => Ok(error_reply(e)),
        },
        Request::ListPanes { session, window } => Ok(
            Step::Perform(Effect::SnapshotOutputs, Pending::ListPanes { session, window }),
        ),
        Request::CapturePane { session, window, pane, lines } => Ok(
            Step::Perform(Effect::SnapshotOutputs, Pending::CapturePane { session, window, pane, lines }),
        ),
        other => Err(other),
    }
}

// ---------------------------------------------------------------------------
// Requests
// ---------------------------------------------------------------------------

/// What a request other than a raw command does: the state and the
/// compatibility tables afterwards, and the next step.
pub open spec fn spec_handle_parsed(s: StateView, c: CompatView, q: RequestView) -> (StateView, CompatView, StepView) {
    match spec_session_request(s, q) {
        Some((t, st)) => (t, c, st),
        None => match spec_window_request(s, q) {
            Some((t, st)) => (t, c, st),
            None => match spec_pane_request(s, q) {
                Some((t, st)) => (t, c, st),
                None => match q {
                    RequestView::CompatCommand { name, target, args } => spec_compat(s, c, name, target, args),
                    _ => (s, c, failed("raw command within a raw command"@)),
                },
            },
        },
    }
}

/// What a request does: a raw command is parsed first, and a command that
/// does not parse is answered with the reason.
#[verifier::opaque]
pub open spec fn spec_handle(s: StateView, c: CompatView, q: RequestView) -> (StateView, CompatView, StepView) {
    match q {
        RequestView::ExecuteRaw { command } => match raw_request(ws_tokens(command)) {
            Ok(q2) => spec_handle_guarded(s, c, q2),
            Err(m) => (s, c, failed(m)),
        },
        _ => spec_handle_guarded(s, c, q),
    }
}

/// The answer to a request that needs the state's bounds when the state is
/// past them.
pub open spec fn full_message() -> Seq<char> {
    "server state is too large for this command"@
}

/// A request is refused, with the state unchanged, when the state is past
/// what it needs; any other is answered.
pub open spec fn spec_handle_guarded(s: StateView, c: CompatView, q: RequestView) -> (StateView, CompatView, StepView) {
    if !request_fits(q, s) {
        (s, c, failed(full_message()))
    } else {
        spec_handle_parsed(s, c, q)
    }
}

fn handle_guarded(state: &mut ServerState, compat: &mut CompatState, q: Request) -> (r: Step)
    requires
        !(q@ is ExecuteRaw),
    ensures
        (final(state)@, final(compat)@, r@) == spec_handle_guarded(old(state)@, old(compat)@, q@),
{
    let listing = match &q {
        Request::ListSessions => true,
        _ => false,
    };
    if (needs_room_exec(&q) && !state.fits()) || (listing && !state.counts_fit()) {
        Step::Reply(Response::Error { message: lit("server state is too large for this command") })
    } else {
        handle_parsed(state, compat, q)
    }
}

/// A raw command never parses into another raw command.
pub proof fn lemma_raw_request_not_raw(t: Seq<Seq<char>>)
    ensures
        raw_request(t) matches Ok(v) ==> !(v is ExecuteRaw),
{
}

fn handle_parsed(state: &mut ServerState, compat: &mut CompatState, q: Request) -> (r: Step)
    requires
        request_fits(q@, old(state)@),
        !(q@ is ExecuteRaw),
    ensures
        (final(state)@, final(compat)@, r@) == spec_handle_parsed(old(state)@, old(compat)@, q@),
{
    let q = match session_request(state, q) {
        Ok(step) => {
            return step;
        },
        Err(q) => q,
    };
    let q = match window_request(state, q) {
        Ok(step) => {
            return step;
        },
        Err(q) => q,
    };
    let q = match pane_request(state, q) {
        Ok(step) => {
            return step;
        },
        Err(q) => q,
    };
    match q {
        Request::CompatCommand { name, target, args } => execute_compat_command(
            state,
            compat,
            name.as_str(),
            target,
            args,
        ),
        _ => Step::Reply(Response::Error { message: lit("raw command within a raw command") }),
    }
}

/// Answers a request, or says which work the runtime does first: the state
/// and the compatibility tables change as the request asks.
pub fn handle_request(state: &mut ServerState, compat: &mut CompatState, request: Request) -> (r: Step)
    ensures
        (final(state)@, final(compat)@, r@) == spec_handle(old(state)@, old(compat)@, request@),
{
    proof {
        reveal(spec_handle);
    }
    match request {
        Request::ExecuteRaw { command } => match parse_raw_command(command.as_str()) {
            Ok(parsed) => {
                proof {
                    lemma_raw_request_not_raw(ws_tokens(command@));
                }
                handle_guarded(state, compat, parsed)
            },
            Err(message) => Step::Reply(Response::Error { message }),
        },
        other => handle_guarded(state, compat, other),
    }
}

// ---------------------------------------------------------------------------
// Resuming after the runtime's work
// ---------------------------------------------------------------------------

/// The views of some pane outputs.
pub open spec fn outputs_view(v: Seq<(u64, String)>) -> Seq<(u64, Seq<char>)> {
    v.map_values(|e: (u64, String)| (e.0, e.1@))
}

/// The state after recording each pane's output, in order.
pub open spec fn apply_outputs(s: StateView, v: Seq<(u64, Seq<char>)>) -> StateView
    decreases v.len(),
{
    if v.len() == 0 {
        s
    } else {
        spec_set_pane_output(apply_outputs(s, v.drop_last()), v.last().0, v.last().1).0
    }
}

fn apply_outputs_exec(state: &mut ServerState, v: &Vec<(u64, String)>)
    ensures
        final(state)@ == apply_outputs(old(state)@, outputs_view(v@)),
{
    let ghost ov = outputs_view(v@);
    let mut i: usize = 0;
    while i < v.len()
        invariant
            i <= v.len(),
            ov == outputs_view(v@),
            state@ == apply_outputs(old(state)@, ov.take(i as int)),
        decreases v.len() - i,
    {
        let _ = state.set_pane_output(v[i].0, v[i].1.clone());
        proof {
            assert(ov.take(i + 1).drop_last() =~= ov.take(i as int));
        }
        i = i + 1;
    }
    proof {
        assert(ov.take(i as int) =~= ov);
    }
}

/// The predicate that picks the pane to capture: the one whose id or title
/// the selector gives, else the active one.
pub open spec fn capture_pick(pane: Option<Seq<char>>) -> spec_fn(PaneRecordView) -> bool {
    match pane {
        Some(sel) => |r: PaneRecordView| parse_unsigned(sel, u64::MAX as nat) == Some(r.pane_id as nat) || sel == r.pane_title,
        None => |r: PaneRecordView| r.active,
    }
}

/// The last `n` lines (all of them when there are fewer, or no `n`).
pub open spec fn last_lines(all: Seq<Seq<char>>, lines: Option<usize>) -> Seq<Seq<char>> {
    match lines {
        Some(n) => if n < all.len() {
            all.skip(all.len() - n)
        } else {
            all
        },
        None => all,
    }
}

/// What capturing a pane answers.
pub open spec fn spec_capture(
    t: StateView,
    session: Option<Seq<char>>,
    window: Option<Seq<char>>,
    pane: Option<Seq<char>>,
    lines: Option<usize>,
) -> StepView {
    match pane_listing(t, session, window) {
        Err(e) => error_step(e),
        Ok(recs) => match first_index(recs, capture_pick(pane)) {
            None => failed("pane not found"@),
            Some(x) => answer(
                ResponseView::PaneCaptured {
                    pane_id: recs[x].pane_id,
                    lines: last_lines(lines_of(or_empty(recs[x].last_output)), lines),
                },
            ),
        },
    }
}

fn last_lines_exec(all: Vec<String>, lines: Option<usize>) -> (r: Vec<String>)
    ensures
        views_of(r@) == last_lines(views_of(all@), lines),
{
    let ghost av = views_of(all@);
    match lines {
        Some(n) => if n < all.len() {
            let start = all.len() - n;
            let mut out: Vec<String> = Vec::new();
            let mut k: usize = start;
            while k < all.len()
                invariant
                    start <= k <= all.len(),
                    av == views_of(all@),
                    views_of(out@) == av.subrange(start as int, k as int),
                decreases all.len() - k,
            {
                let ghost prev = views_of(out@);
                out.push(all[k].clone());
                proof {
                    assert(views_of(out@) =~= prev.push(av[k as int]));
                    assert(av.subrange(start as int, k + 1) =~= av.subrange(start as int, k as int).push(av[k as int]));
                }
                k = k + 1;
            }
            proof {
                assert(av.subrange(start as int, k as int) =~= av.skip(start as int));
            }
            out
        } else {
            all
        },
        None => all,
    }
}

fn captured(rec: &PaneRecord, lines: Option<usize>) -> (r: Step)
    ensures
        r@ == answer(
            ResponseView::PaneCaptured {
                pane_id: rec@.pane_id,
                lines: last_lines(lines_of(or_empty(rec@.last_output)), lines),
            },
        ),
{
    let raw = match &rec.last_output {
        Some(o) => o.clone(),
        None => String::new(),
    };
    let kept = last_lines_exec(split_lines(raw.as_str()), lines);
    Step::Reply(Response::PaneCaptured { pane_id: rec.pane_id, lines: kept })
}

fn capture_exec(
    state: &ServerState,
    session: &Option<String>,
    window: &Option<String>,
    pane: &Option<String>,
    lines: Option<usize>,
) -> (r: Step)
    ensures
        r@ == spec_capture(state@, session.deep_view(), window.deep_view(), pane.deep_view(), lines),
{
    match state.list_panes(opt_str(session), opt_str(window)) {
        Err(e) => error_reply(e),
        Ok(panes) => {
            let ghost recs = crate::state::pane_records_view(panes@);
            let ghost pick = capture_pick(pane.deep_view());
            let mut x: usize = 0;
            while x < panes.len()
                invariant
                    x <= panes.len(),
                    recs == crate::state::pane_records_view(panes@),
                    pane_listing(state@, session.deep_view(), window.deep_view()) == Ok::<
                        Seq<PaneRecordView>,
                        StateErrorView,
                    >(recs),
                    pick == capture_pick(pane.deep_view()),
                    forall|y: int| 0 <= y < x ==> !pick(#[trigger] recs[y]),
                decreases panes.len() - x,
            {
                let hit = match pane {
                    Some(sel) => {
                        let by_id = match parse_u64(sel.as_str()) {
                            Some(id) => id == panes[x].pane_id,
                            None => false,
                        };
                        by_id || str_eq(sel.as_str(), panes[x].pane_title.as_str())
                    },
                    None => panes[x].active,
                };
                if hit {
                    proof {
                        lemma_first_index_is(recs, pick, x as int);
                    }
                    assert(recs[x as int] == panes@[x as int]@);
                    return captured(&panes[x], lines);
                }
                x = x + 1;
            }
            proof {
                lemma_first_index_none(recs, pick);
            }
            Step::Reply(Response::Error { message: lit("pane not found") })
        },
    }
}

/// The numbered lines of a file to source: each line trimmed, without blank
/// lines and comments, numbered from zero as in the file.
pub open spec fn source_lines(ls: Seq<Seq<char>>) -> Seq<(usize, Seq<char>)>
    decreases ls.len(),
{
    if ls.len() == 0 {
        seq![]
    } else {
        let t = trim(ls.last());
        source_lines(ls.drop_last()) + if t.len() == 0 || starts_with_char(t, '#') {
            seq![]
        } else {
            seq![((ls.len() - 1) as usize, t)]
        }
    }
}

/// The numbered command lines of a file's contents.
pub fn source_lines_exec(contents: &str) -> (r: Vec<(usize, String)>)
    ensures
        crate::effects::numbered_view(r@) == source_lines(lines_of(contents@)),
{
    let ls = split_lines(contents);
    let ghost lv = views_of(ls@);
    let mut out: Vec<(usize, String)> = Vec::new();
    let mut i: usize = 0;
    while i < ls.len()
        invariant
            i <= ls.len(),
            lv == views_of(ls@),
            lv == lines_of(contents@),
            crate::effects::numbered_view(out@) == source_lines(lv.take(i as int)),
        decreases ls.len() - i,
    {
        let t = trim_exec(ls[i].as_str());
        let tc = crate::text::chars_of(t.as_str());
        proof {
            assert(lv.take(i + 1).drop_last() =~= lv.take(i as int));
            assert(lv.take(i + 1).last() == lv[i as int]);
        }
        let ghost prev = crate::effects::numbered_view(out@);
        if !(tc.len() == 0 || tc[0] == '#') {
            out.push((i, t));
            proof {
                assert(crate::effects::numbered_view(out@) =~= prev.push((i, trim(lv[i as int]))));
            }
        }
        proof {
            assert(crate::effects::numbered_view(out@) =~= source_lines(lv.take(i + 1)));
        }
        i = i + 1;
    }
    proof {
        assert(lv.take(i as int) =~= lv);
    }
    out
}

/// The line number shown for a line numbered from zero.
pub open spec fn line_number(n: usize) -> nat {
    if n == usize::MAX {
        0
    } else {
        (n + 1) as nat
    }
}

/// The `line N: message` reports of the answers that are errors.
pub open spec fn error_lines(v: Seq<(usize, ResponseView)>) -> Seq<Seq<char>>
    decreases v.len(),
{
    if v.len() == 0 {
        seq![]
    } else {
        error_lines(v.drop_last()) + match v.last().1 {
            ResponseView::Error { message } => seq!["line "@ + decimal(line_number(v.last().0)) + ": "@ + message],
            _ => seq![],
        }
    }
}

/// How many answers are not errors.
pub open spec fn executed_count(v: Seq<(usize, ResponseView)>) -> nat
    decreases v.len(),
{
    if v.len() == 0 {
        0
    } else {
        executed_count(v.drop_last()) + if v.last().1 is Error {
            0nat
        } else {
            1nat
        }
    }
}

/// What sourcing a file answers once its lines ran.
pub open spec fn source_summary(rendered: Seq<char>, v: Seq<(usize, ResponseView)>) -> StepView {
    let errors = error_lines(v);
    if errors.len() == 0 {
        accepted(rendered + ": executed "@ + decimal(executed_count(v)))
    } else {
        failed("source-file: "@ + decimal(errors.len()) + " errors: "@ + join_with(errors, "; "@))
    }
}

fn source_summary_exec(rendered: &str, v: &Vec<(usize, Response)>) -> (r: Step)
    ensures
        r@ == source_summary(rendered@, crate::effects::replies_view(v@)),
{
    let ghost rv = crate::effects::replies_view(v@);
    let mut errors: Vec<String> = Vec::new();
    let mut executed: usize = 0;
    let mut i: usize = 0;
    while i < v.len()
        invariant
            i <= v.len(),
            rv == crate::effects::replies_view(v@),
            views_of(errors@) == error_lines(rv.take(i as int)),
            executed as nat == executed_count(rv.take(i as int)),
            executed <= i,
        decreases v.len() - i,
    {
        proof {
            assert(rv.take(i + 1).drop_last() =~= rv.take(i as int));
            assert(rv.take(i + 1).last() == rv[i as int]);
        }
        let ghost prev = views_of(errors@);
        match &v[i].1 {
            Response::Error { message } => {
                let n = v[i].0;
                let shown = if n == usize::MAX {
                    usize_to_string(0)
                } else {
                    usize_to_string(n + 1)
                };
                let mut line = concat3("line ", shown.as_str(), ": ");
                append_str(&mut line, message.as_str());
                errors.push(line);
                proof {
                    assert(views_of(errors@) =~= prev.push("line "@ + decimal(line_number(n)) + ": "@ + message@));
                }
            },
            _ => {
                executed = executed + 1;
            },
        }
        i = i + 1;
    }
    proof {
        assert(rv.take(i as int) =~= rv);
    }
    if errors.len() == 0 {
        Step::Reply(Response::CommandAccepted { command: concat3(rendered, ": executed ", usize_to_string(executed).as_str()) })
    } else {
        let mut message = concat3("source-file: ", usize_to_string(errors.len()).as_str(), " errors: ");
        let joined = crate::text::join_strings(errors.as_slice(), "; ");
        append_str(&mut message, joined.as_str());
        Step::Reply(Response::Error { message })
    }
}

/// What `run-shell` lists: the lines printed, then each line printed to the
/// error stream marked as such.
pub open spec fn shell_lines(stdout: Seq<char>, stderr: Seq<char>) -> Seq<Seq<char>> {
    lines_of(stdout) + lines_of(stderr).map_values(|l: Seq<char>| "stderr: "@ + l)
}

fn shell_lines_exec(stdout: &str, stderr: &str) -> (r: Vec<String>)
    ensures
        views_of(r@) == shell_lines(stdout@, stderr@),
{
    let mut out = split_lines(stdout);
    let errs = split_lines(stderr);
    let ghost base = views_of(out@);
    let ghost ev = views_of(errs@);
    let mut i: usize = 0;
    while i < errs.len()
        invariant
            i <= errs.len(),
            ev == views_of(errs@),
            views_of(out@) == base + ev.take(i as int).map_values(|l: Seq<char>| "stderr: "@ + l),
        decreases errs.len() - i,
    {
        let ghost prev = views_of(out@);
        out.push(concat2("stderr: ", errs[i].as_str()));
        proof {
            assert(views_of(out@) =~= prev.push("stderr: "@ + ev[i as int]));
            assert(ev.take(i + 1).map_values(|l: Seq<char>| "stderr: "@ + l) =~= ev.take(i as int).map_values(
                |l: Seq<char>| "stderr: "@ + l,
            ).push("stderr: "@ + ev[i as int]));
        }
        i = i + 1;
    }
    proof {
        assert(ev.take(i as int) =~= ev);
    }
    out
}

/// What a command waiting on the runtime does once the runtime reports:
/// the state and compatibility tables afterwards, and the next step.
pub open spec fn spec_resume(s: StateView, c: CompatView, p: PendingView, e: Event) -> (StateView, CompatView, StepView) {
    match p {
        PendingView::Reply(r) => (s, c, answer(r)),
        PendingView::ReplyUnlessFailed(r) => match e {
            Event::Failed(m) => (s, c, failed(m@)),
            _ => (s, c, answer(r)),
        },
        PendingView::KeysSent { pane_id, reply } => match e {
            Event::Failed(m) => (s, c, failed(m@)),
            _ => (s, c, StepView::Perform(EffectView::ReadOutput(pane_id), PendingView::OutputRead { pane_id, reply })),
        },
        PendingView::OutputRead { pane_id, reply } => match e {
            Event::Output(Some(o)) => (spec_set_pane_output(s, pane_id, o@).0, c, answer(reply)),
            _ => (s, c, answer(reply)),
        },
        PendingView::ListPanes { session, window } => {
            let t = match e {
                Event::Outputs(v) => apply_outputs(s, outputs_view(v@)),
                _ => s,
            };
            (
                t,
                c,
                match pane_listing(t, session, window) {
                    Ok(recs) => answer(ResponseView::Panes(recs.map_values(|r: PaneRecordView| pane_info(r)))),
                    Err(err) => error_step(err),
                },
            )
        },
        PendingView::CapturePane { session, window, pane, lines } => {
            let t = match e {
                Event::Outputs(v) => apply_outputs(s, outputs_view(v@)),
                _ => s,
            };
            (t, c, spec_capture(t, session, window, pane, lines))
        },
        PendingView::Recorded(rendered) => (s, recorded(c, rendered), accepted(rendered)),
        PendingView::RecordedUnlessFailed(rendered) => match e {
            Event::Failed(m) => (s, c, failed(m@)),
            _ => (s, recorded(c, rendered), accepted(rendered)),
        },
        PendingView::Piped(rendered) => match e {
            Event::Failed(m) => (s, c, failed(m@)),
            Event::Piped(Some(msg)) => (s, recorded(c, rendered), accepted(msg@)),
            _ => (s, recorded(c, rendered), accepted(rendered)),
        },
        PendingView::SourceRead { path, rendered } => match e {
            Event::FileRead(contents) => (
                s,
                c,
                StepView::Perform(EffectView::RunCommands(source_lines(lines_of(contents@))), PendingView::Sourced(rendered)),
            ),
            Event::Failed(m) => (s, c, failed("read "@ + path + ": "@ + m@)),
            _ => (s, c, StepView::Perform(EffectView::RunCommands(seq![]), PendingView::Sourced(rendered))),
        },
        PendingView::Sourced(rendered) => {
            let v = match e {
                Event::Replies(v) => crate::effects::replies_view(v@),
                _ => seq![],
            };
            (s, recorded(c, rendered), source_summary(rendered, v))
        },
        PendingView::ShellRan(rendered) => match e {
            Event::Failed(m) => (s, c, failed("run-shell spawn: "@ + m@)),
            Event::ShellOutput { stdout, stderr } => (s, recorded(c, rendered), listed(shell_lines(stdout@, stderr@))),
            _ => (s, recorded(c, rendered), listed(seq![])),
        },
        PendingView::ShellTested { rendered, true_cmd, false_cmd } => shell_tested(
            s,
            c,
            rendered,
            true_cmd,
            false_cmd,
            e matches Event::Status(true),
        ),
    }
}

/// What `if-shell` does once its test has run: it records the command and
/// runs the branch that the test's outcome picks, if there is one.
pub open spec fn shell_tested(
    s: StateView,
    c: CompatView,
    rendered: Seq<char>,
    true_cmd: Seq<char>,
    false_cmd: Option<Seq<char>>,
    ok: bool,
) -> (StateView, CompatView, StepView) {
    let c2 = recorded(c, rendered);
    let branch = if ok {
        Some(true_cmd)
    } else {
        false_cmd
    };
    match branch {
        Some(cmd) => spec_handle(s, c2, RequestView::ExecuteRaw { command: cmd }),
        None => (s, c2, accepted(rendered + ": no branch"@)),
    }
}

fn resume_list_panes(
    state: &mut ServerState,
    session: Option<String>,
    window: Option<String>,
    event: &Event,
) -> (r: Step)
    ensures
        ({
            let t = match *event {
                Event::Outputs(v) => apply_outputs(old(state)@, outputs_view(v@)),
                _ => old(state)@,
            };
            &&& final(state)@ == t
            &&& r@ == match pane_listing(t, session.deep_view(), window.deep_view()) {
                Ok(recs) => answer(ResponseView::Panes(recs.map_values(|r: PaneRecordView| pane_info(r)))),
                Err(err) => error_step(err),
            }
        }),
{
    match event {
        Event::Outputs(v) => apply_outputs_exec(state, v),
        _ => {},
    }
    match state.list_panes(opt_str(&session), opt_str(&window)) {
        Ok(v) => Step::Reply(Response::Panes(pane_infos(v))),
        Err(err) => error_reply(err),
    }
}

fn resume_capture(
    state: &mut ServerState,
    session: Option<String>,
    window: Option<String>,
    pane: Option<String>,
    lines: Option<usize>,
    event: &Event,
) -> (r: Step)
    ensures
        ({
            let t = match *event {
                Event::Outputs(v) => apply_outputs(old(state)@, outputs_view(v@)),
                _ => old(state)@,
            };
            &&& final(state)@ == t
            &&& r@ == spec_capture(t, session.deep_view(), window.deep_view(), pane.deep_view(), lines)
        }),
{
    match event {
        Event::Outputs(v) => apply_outputs_exec(state, v),
        _ => {},
    }
    capture_exec(state, &session, &window, &pane, lines)
}

fn resume_source_read(path: String, rendered: String, event: Event) -> (r: Step)
    ensures
        r@ == spec_resume(
            arbitrary_state(),
            crate::compat::empty_compat(),
            PendingView::SourceRead { path: path@, rendered: rendered@ },
            event,
        ).2,
{
    match event {
        Event::FileRead(contents) => Step::Perform(
            Effect::RunCommands(source_lines_exec(contents.as_str())),
            Pending::Sourced(rendered),
        ),
        Event::Failed(m) => {
            let mut message = concat3("read ", path.as_str(), ": ");
            append_str(&mut message, m.as_str());
            Step::Reply(Response::Error { message })
        },
        _ => {
            let v: Vec<(usize, String)> = Vec::new();
            proof {
                assert(crate::effects::numbered_view(v@) =~= Seq::<(usize, Seq<char>)>::empty());
            }
            Step::Perform(Effect::RunCommands(v), Pending::Sourced(rendered))
        },
    }
}

/// Some state, for the parts of `spec_resume` that do not read it.
pub open spec fn arbitrary_state() -> StateView {
    crate::state::initial_state()
}

fn resume_sourced(compat: &mut CompatState, rendered: String, event: Event) -> (r: Step)
    ensures
        final(compat)@ == recorded(old(compat)@, rendered@),
        r@ == source_summary(
            rendered@,
            match event {
                Event::Replies(v) => crate::effects::replies_view(v@),
                _ => seq![],
            },
        ),
{
    compat.record(rendered.clone());
    match event {
        Event::Replies(v) => source_summary_exec(rendered.as_str(), &v),
        _ => {
            let v: Vec<(usize, Response)> = Vec::new();
            proof {
                assert(crate::effects::replies_view(v@) =~= Seq::<(usize, ResponseView)>::empty());
            }
            source_summary_exec(rendered.as_str(), &v)
        },
    }
}

fn resume_shell_ran(compat: &mut CompatState, rendered: String, event: Event) -> (r: Step)
    ensures
        ({
            let (_, c2, st) = spec_resume(arbitrary_state(), old(compat)@, PendingView::ShellRan(rendered@), event);
            final(compat)@ == c2 && r@ == st
        }),
{
    match event {
        Event::Failed(m) => Step::Reply(Response::Error { message: concat2("run-shell spawn: ", m.as_str()) }),
        Event::ShellOutput { stdout, stderr } => {
            compat.record(rendered);
            Step::Reply(Response::Commands(shell_lines_exec(stdout.as_str(), stderr.as_str())))
        },
        _ => {
            compat.record(rendered);
            let v: Vec<String> = Vec::new();
            proof {
                assert(views_of(v@) =~= Seq::<Seq<char>>::empty());
            }
            Step::Reply(Response::Commands(v))
        },
    }
}

fn resume_shell_tested(
    state: &mut ServerState,
    compat: &mut CompatState,
    rendered: String,
    true_cmd: String,
    false_cmd: Option<String>,
    ok: bool,
) -> (r: Step)
    ensures
        (final(state)@, final(compat)@, r@) == shell_tested(
            old(state)@,
            old(compat)@,
            rendered@,
            true_cmd@,
            false_cmd.deep_view(),
            ok,
        ),
{
    compat.record(rendered.clone());
    let branch = if ok {
        Some(true_cmd)
    } else {
        false_cmd
    };
    match branch {
        Some(command) => handle_request(state, compat, Request::ExecuteRaw { command }),
        None => Step::Reply(Response::CommandAccepted { command: concat2(rendered.as_str(), ": no branch") }),
    }
}

fn resume_recorded(compat: &mut CompatState, pending: Pending, event: Event) -> (r: Step)
    requires
        pending@ is Recorded || pending@ is RecordedUnlessFailed || pending@ is Piped,
    ensures
        ({
            let (_, c2, st) = spec_resume(arbitrary_state(), old(compat)@, pending@, event);
            final(compat)@ == c2 && r@ == st
        }),
{
    match pending {
        Pending::Recorded(rendered) => {
            compat.record(rendered.clone());
            Step::Reply(Response::CommandAccepted { command: rendered })
        },
        Pending::RecordedUnlessFailed(rendered) => match event {
            Event::Failed(m) => Step::Reply(Response::Error { message: m }),
            _ => {
                compat.record(rendered.clone());
                Step::Reply(Response::CommandAccepted { command: rendered })
            },
        },
        Pending::Piped(rendered) => match event {
            Event::Failed(m) => Step::Reply(Response::Error { message: m }),
            Event::Piped(Some(msg)) => {
                compat.record(rendered);
                Step::Reply(Response::CommandAccepted { command: msg })
            },
            _ => {
                compat.record(rendered.clone());
                Step::Reply(Response::CommandAccepted { command: rendered })
            },
        },
        _ => Step::Reply(Response::Pong),
    }
}

/// Goes on with a command that waited for the runtime, given what the
/// runtime reports.
pub fn resume(state: &mut ServerState, compat: &mut CompatState, pending: Pending, event: Event) -> (r: Step)
    ensures
        (final(state)@, final(compat)@, r@) == spec_resume(old(state)@, old(compat)@, pending@, event),
{
    match pending {
        Pending::Reply(r) => Step::Reply(r),
        Pending::ReplyUnlessFailed(r) => match event {
            Event::Failed(m) => Step::Reply(Response::Error { message: m }),
            _ => Step::Reply(r),
        },
        Pending::KeysSent { pane_id, reply } => match event {
            Event::Failed(m) => Step::Reply(Response::Error { message: m }),
            _ => Step::Perform(Effect::ReadOutput(pane_id), Pending::OutputRead { pane_id, reply }),
        },
        Pending::OutputRead { pane_id, reply } => {
            match event {
                Event::Output(Some(o)) => {
                    let _ = state.set_pane_output(pane_id, o);
                },
                _ => {},
            }
            Step::Reply(reply)
        },
        Pending::ListPanes { session, window } => resume_list_panes(state, session, window, &event),
        Pending::CapturePane { session, window, pane, lines } => resume_capture(
            state,
            session,
            window,
            pane,
            lines,
            &event,
        ),
        Pending::SourceRead { path, rendered } => resume_source_read(path, rendered, event),
        Pending::Sourced(rendered) => resume_sourced(compat, rendered, event),
        Pending::ShellRan(rendered) => resume_shell_ran(compat, rendered, event),
        Pending::ShellTested { rendered, true_cmd, false_cmd } => {
            let ok = match event {
                Event::Status(b) => b,
                _ => false,
            };
            resume_shell_tested(state, compat, rendered, true_cmd, false_cmd, ok)
        },
        other => resume_recorded(compat, other, event),
    }
}

} // verus!
