//! What every request keeps of the server state, whatever it asks: the
//! option and environment tables stay in strictly ascending order of
//! names, so that each name stands once and reads back what was set; and
//! the server's record of the attached session agrees with the client's.
use vstd::prelude::*;
use crate::state::StateView;
use crate::tables::{table_sorted, law_table_insert};
use crate::proto::RequestView;
use crate::compat::CompatView;
use crate::dispatch::{spec_handle, spec_handle_parsed, spec_session_request, spec_window_request, spec_pane_request, spec_resume};
use crate::effects::{PendingView, Event};
use crate::command::TargetView;

verus! {

/// Whether the option and environment tables ascend strictly by name.
pub open spec fn tables_sorted(s: StateView) -> bool {
    table_sorted(s.options) && table_sorted(s.environment)
}

/// Whether the server's attached session is the client's.
pub open spec fn attachment_agrees(s: StateView) -> bool {
    s.attached_session == s.client.attached_session
}

/// What every request keeps.
pub open spec fn kept(s: StateView) -> bool {
    tables_sorted(s) && attachment_agrees(s)
}

proof fn lemma_session_request_tables(s: StateView, q: RequestView)
    requires
        kept(s),
    ensures
        spec_session_request(s, q) matches Some((t, _)) ==> kept(t),
{
    match q {
        RequestView::SetOption { name, value } => law_table_insert(s.options, name, value),
        RequestView::SetEnvironment { name, value } => law_table_insert(s.environment, name, value),
        _ => {},
    }
}

proof fn lemma_window_request_tables(s: StateView, q: RequestView)
    requires
        kept(s),
    ensures
        spec_window_request(s, q) matches Some((t, _)) ==> kept(t),
{
}

proof fn lemma_pane_request_tables(s: StateView, q: RequestView)
    requires
        kept(s),
    ensures
        spec_pane_request(s, q) matches Some((t, _)) ==> kept(t),
{
}


#[verifier::spinoff_prover]
#[verifier::rlimit(60)]
proof fn lemma_compat_tables(s: StateView, c: CompatView, name: Seq<char>, target: Option<Seq<char>>, args: Seq<Seq<char>>)
    ensures
        crate::compat::spec_compat(s, c, name, target, args).0.options == s.options,
        crate::compat::spec_compat(s, c, name, target, args).0.environment == s.environment,
{
}

/// Whether two states agree on the attached session and the client.
pub open spec fn same_attachment(t: StateView, s: StateView) -> bool {
    t.attached_session == s.attached_session && t.client == s.client
}

proof fn lemma_compat_pieces_attachment(s: StateView, c: CompatView, d: TargetView, args: Seq<Seq<char>>, rendered: Seq<char>, name: Seq<char>)
    ensures
        same_attachment(crate::compat::cmd_resize_window(s, c, d, args, rendered).0, s),
        same_attachment(crate::compat::cmd_swap_pane(s, c, d, args, rendered).0, s),
        same_attachment(crate::compat::cmd_join_pane(s, c, d, args, rendered).0, s),
        same_attachment(crate::compat::cmd_select_layout(s, c, d, args, rendered).0, s),
        same_attachment(crate::compat::cmd_cycle_layout(s, c, d, name, rendered).0, s),
        same_attachment(crate::compat::cmd_pipe_pane(s, c, d, args, rendered).0, s),
{
}

proof fn lemma_state_pieces_attachment(s: StateView, d: TargetView, args: Seq<Seq<char>>)
    ensures
        same_attachment(crate::state::spec_rotate_window(s, d.session, d.window, args.contains("-U"@)).0, s),
        same_attachment(
            crate::state::spec_break_pane(s, d.session, d.window, d.pane, crate::compat::flag_value_from(args, "-n"@, 0)).0,
            s,
        ),
        same_attachment(
            crate::state::pane_command(s, crate::state::sel_target(s, d.session, d.window, d.pane, true), crate::state::clear_io(), true).0,
            s,
        ),
        same_attachment(
            crate::state::pane_command(s, crate::state::sel_target(s, d.session, d.window, d.pane, true), crate::state::clear_output(), false).0,
            s,
        ),
{
}

#[verifier::spinoff_prover]
#[verifier::rlimit(60)]
proof fn lemma_compat_attachment(s: StateView, c: CompatView, name: Seq<char>, target: Option<Seq<char>>, args: Seq<Seq<char>>)
    ensures
        same_attachment(crate::compat::spec_compat(s, c, name, target, args).0, s),
{
    let rendered = crate::compat::compat_text(name, target, args);
    let d = crate::compat::opt_target(target);
    lemma_compat_pieces_attachment(s, c, d, args, rendered, name);
    lemma_state_pieces_attachment(s, d, args);
}

proof fn lemma_handle_parsed_tables(s: StateView, c: CompatView, q: RequestView)
    requires
        kept(s),
    ensures
        kept(spec_handle_parsed(s, c, q).0),
{
    lemma_session_request_tables(s, q);
    lemma_window_request_tables(s, q);
    lemma_pane_request_tables(s, q);
    if let RequestView::CompatCommand { name, target, args } = q {
        lemma_compat_tables(s, c, name, target, args);
        lemma_compat_attachment(s, c, name, target, args);
    }
}

proof fn lemma_outputs_frame(s: StateView, v: Seq<(u64, Seq<char>)>)
    ensures
        crate::dispatch::apply_outputs(s, v).options == s.options,
        crate::dispatch::apply_outputs(s, v).environment == s.environment,
        crate::dispatch::apply_outputs(s, v).attached_session == s.attached_session,
        crate::dispatch::apply_outputs(s, v).client == s.client,
    decreases v.len(),
{
    if v.len() > 0 {
        lemma_outputs_frame(s, v.drop_last());
    }
}

/// Every request keeps the option and environment tables in strictly
/// ascending order of names, and the server's and the client's attached
/// session in agreement.
pub proof fn law_handle_keeps(s: StateView, c: CompatView, q: RequestView)
    requires
        kept(s),
    ensures
        kept(spec_handle(s, c, q).0),
{
    reveal(spec_handle);
    match q {
        RequestView::ExecuteRaw { command } => match crate::command::raw_request(crate::text::ws_tokens(command)) {
            Ok(q2) => lemma_handle_parsed_tables(s, c, q2),
            Err(_) => {},
        },
        _ => lemma_handle_parsed_tables(s, c, q),
    }
    assert(kept(spec_handle(s, c, q).0));
}

/// Going on with a command after the runtime reports keeps what every
/// request keeps.
pub proof fn law_resume_keeps(s: StateView, c: CompatView, p: PendingView, e: Event)
    requires
        kept(s),
    ensures
        kept(spec_resume(s, c, p, e).0),
{
    match p {
        PendingView::ShellTested { rendered, true_cmd, false_cmd } => {
            let c2 = crate::compat::recorded(c, rendered);
            law_handle_keeps(s, c2, RequestView::ExecuteRaw { command: true_cmd });
            if let Some(f) = false_cmd {
                law_handle_keeps(s, c2, RequestView::ExecuteRaw { command: f });
            }
        },
        PendingView::ListPanes { .. } | PendingView::CapturePane { .. } => {
            if let Event::Outputs(v) = e {
                lemma_outputs_frame(s, crate::dispatch::outputs_view(v@));
            }
        },
        _ => {},
    }
}


/// A fresh server, and one whose server was killed, starts with empty,
/// and so ordered, tables and no attached session.
pub proof fn law_fresh_state_kept(s: StateView)
    ensures
        kept(crate::state::initial_state()),
        kept(crate::state::spec_kill_server(s)),
{
}

/// Setting an environment variable in a state whose tables are in order:
/// reading it back gives the value set, every other variable reads as
/// before, the listing names each variable once in ascending order and
/// holds the new one, and the options do not change.
pub proof fn law_environment_read_after_write(s: StateView, n: Seq<char>, v: Seq<char>, m: Seq<char>)
    requires
        tables_sorted(s),
    ensures
        ({
            let t = StateView { environment: crate::tables::table_insert(s.environment, n, v), ..s };
            &&& crate::tables::table_show(t.environment, Some(n)) == seq![(n, v)]
            &&& m != n ==> crate::tables::table_show(t.environment, Some(m)) == crate::tables::table_show(s.environment, Some(m))
            &&& table_sorted(crate::tables::table_show(t.environment, None))
            &&& crate::tables::table_show(t.environment, None).contains((n, v))
            &&& t.options == s.options
            &&& tables_sorted(t)
        }),
{
    crate::laws::law_option_read_after_write(s.environment, n, v, m);
    law_table_insert(s.environment, n, v);
    let e = crate::tables::table_insert(s.environment, n, v);
    crate::text::lemma_first_index(e, crate::tables::entry_named(n));
    let k = crate::text::first_index(e, crate::tables::entry_named(n))->0;
    assert(crate::tables::table_lookup(e, n) == Some(v));
    assert(e[k] == (n, v));
}


/// Whether every id in use lies below the counter that hands out the next.
pub open spec fn ids_below(s: StateView) -> bool {
    &&& forall|i: int| 0 <= i < s.sessions.len() ==> (#[trigger] s.sessions[i]).id < s.next_session_id
    &&& forall|i: int, j: int|
        0 <= i < s.sessions.len() && 0 <= j < s.sessions[i].windows.len() ==> (#[trigger] s.sessions[i].windows[j]).id
            < s.next_window_id
    &&& forall|i: int, j: int, k: int|
        0 <= i < s.sessions.len() && 0 <= j < s.sessions[i].windows.len() && 0 <= k
            < s.sessions[i].windows[j].panes.len() ==> (#[trigger] s.sessions[i].windows[j].panes[k]).id < s.next_pane_id
}


/// A fresh server uses no id yet.
pub proof fn law_fresh_ids_below()
    ensures
        ids_below(crate::state::initial_state()),
{
}

/// In a state whose ids lie below their counters, a created session takes
/// ids that nothing else uses: its own, its window's and its pane's; and
/// the ids stay below the counters afterwards.
pub proof fn law_create_session_fresh(s: StateView, name: Seq<char>)
    requires
        ids_below(s),
        s.next_session_id < u64::MAX,
        s.next_window_id < u64::MAX,
        s.next_pane_id < u64::MAX,
    ensures
        ({
            let (t, r) = crate::state::spec_create_session(s, name);
            &&& ids_below(t)
            &&& r matches Ok(sv) ==> {
                &&& forall|i: int| 0 <= i < s.sessions.len() ==> (#[trigger] s.sessions[i]).id != sv.id
                &&& forall|i: int, j: int|
                    0 <= i < s.sessions.len() && 0 <= j < s.sessions[i].windows.len() ==> (#[trigger] s.sessions[i].windows[j]).id
                        != sv.windows[0].id
                &&& forall|i: int, j: int, k: int|
                    0 <= i < s.sessions.len() && 0 <= j < s.sessions[i].windows.len() && 0 <= k
                        < s.sessions[i].windows[j].panes.len() ==> (#[trigger] s.sessions[i].windows[j].panes[k]).id
                        != sv.windows[0].panes[0].id
            }
        }),
{
    let (t, r) = crate::state::spec_create_session(s, name);
    if r is Ok {
        let n = s.sessions.len() as int;
        assert forall|i: int, j: int|
            0 <= i < t.sessions.len() && 0 <= j < t.sessions[i].windows.len() implies (#[trigger] t.sessions[i].windows[j]).id
                < t.next_window_id by {
            if i < n {
                assert(t.sessions[i] == s.sessions[i]);
            }
        }
        assert forall|i: int, j: int, k: int|
            0 <= i < t.sessions.len() && 0 <= j < t.sessions[i].windows.len() && 0 <= k
                < t.sessions[i].windows[j].panes.len() implies (#[trigger] t.sessions[i].windows[j].panes[k]).id
                < t.next_pane_id by {
            if i < n {
                assert(t.sessions[i] == s.sessions[i]);
            }
        }
    }
}

/// In a state whose ids lie below their counters, a split adds a pane
/// whose id no other pane uses, and the ids stay below the counters.
pub proof fn law_split_window_fresh(
    s: StateView,
    session_name: Option<Seq<char>>,
    window_selector: Option<Seq<char>>,
    title: Option<Seq<char>>,
    layout: crate::layout::WindowLayout,
)
    requires
        ids_below(s),
        s.next_pane_id < u64::MAX,
    ensures
        ({
            let (t, r) = crate::state::spec_split_window(s, session_name, window_selector, title, layout);
            &&& ids_below(t)
            &&& r matches Ok((_, _, p)) ==> forall|i: int, j: int, k: int|
                0 <= i < s.sessions.len() && 0 <= j < s.sessions[i].windows.len() && 0 <= k
                    < s.sessions[i].windows[j].panes.len() ==> (#[trigger] s.sessions[i].windows[j].panes[k]).id != p.id
        }),
{
    let (t, r) = crate::state::spec_split_window(s, session_name, window_selector, title, layout);
    if let Ok((i0, j0)) = crate::state::sel_session_window(s, session_name, window_selector, true) {
        crate::state::lemma_sel_session_bounds(s.sessions, session_name);
        crate::state::lemma_sel_bounds(s.sessions[crate::state::sel_session(s.sessions, session_name)->Ok_0], window_selector, true);
        let w = s.sessions[i0].windows[j0];
        let m = w.panes.len() as int;
        assert forall|i: int, j: int|
            0 <= i < t.sessions.len() && 0 <= j < t.sessions[i].windows.len() implies (#[trigger] t.sessions[i].windows[j]).id
                < t.next_window_id by {
            if i != i0 || j != j0 {
                assert(t.sessions[i].windows[j] == s.sessions[i].windows[j]);
            }
        }
        assert forall|i: int, j: int, k: int|
            0 <= i < t.sessions.len() && 0 <= j < t.sessions[i].windows.len() && 0 <= k
                < t.sessions[i].windows[j].panes.len() implies (#[trigger] t.sessions[i].windows[j].panes[k]).id
                < t.next_pane_id by {
            if i != i0 || j != j0 {
                assert(t.sessions[i].windows[j] == s.sessions[i].windows[j]);
            } else if k < m {
                assert(t.sessions[i].windows[j].panes[k] == w.panes[k]);
            }
        }
    }
}


/// In a state whose ids lie below their counters, a created window takes a
/// window id and a pane id that nothing else uses, and the ids stay below
/// the counters.
pub proof fn law_create_window_fresh(s: StateView, session_name: Option<Seq<char>>, window_name: Option<Seq<char>>)
    requires
        ids_below(s),
        s.next_window_id < u64::MAX,
        s.next_pane_id < u64::MAX,
    ensures
        ({
            let (t, r) = crate::state::spec_create_window(s, session_name, window_name);
            &&& ids_below(t)
            &&& r matches Ok((_, w)) ==> {
                &&& forall|i: int, j: int|
                    0 <= i < s.sessions.len() && 0 <= j < s.sessions[i].windows.len() ==> (#[trigger] s.sessions[i].windows[j]).id
                        != w.id
                &&& forall|i: int, j: int, k: int|
                    0 <= i < s.sessions.len() && 0 <= j < s.sessions[i].windows.len() && 0 <= k
                        < s.sessions[i].windows[j].panes.len() ==> (#[trigger] s.sessions[i].windows[j].panes[k]).id
                        != w.panes[0].id
            }
        }),
{
    let (t, r) = crate::state::spec_create_window(s, session_name, window_name);
    if let Ok(i0) = crate::state::sel_session(s.sessions, session_name) {
        crate::state::lemma_sel_session_bounds(s.sessions, session_name);
        let m = s.sessions[i0].windows.len() as int;
        assert forall|i: int, j: int|
            0 <= i < t.sessions.len() && 0 <= j < t.sessions[i].windows.len() implies (#[trigger] t.sessions[i].windows[j]).id
                < t.next_window_id by {
            if i != i0 || j < m {
                assert(t.sessions[i].windows[j] == s.sessions[i].windows[j]);
            }
        }
        assert forall|i: int, j: int, k: int|
            0 <= i < t.sessions.len() && 0 <= j < t.sessions[i].windows.len() && 0 <= k
                < t.sessions[i].windows[j].panes.len() implies (#[trigger] t.sessions[i].windows[j].panes[k]).id
                < t.next_pane_id by {
            if i != i0 || j < m {
                assert(t.sessions[i].windows[j] == s.sessions[i].windows[j]);
            }
        }
    }
}


// ---------------------------------------------------------------------------
// What a request does to the environment
// ---------------------------------------------------------------------------

/// The environment after a request that is handled: set by a set request,
/// emptied by killing the server, and otherwise as it was.
pub open spec fn environment_after(e: Seq<(Seq<char>, Seq<char>)>, q: RequestView) -> Seq<(Seq<char>, Seq<char>)> {
    match q {
        RequestView::SetEnvironment { name, value } => crate::tables::table_insert(e, name, value),
        RequestView::KillServer => seq![],
        _ => e,
    }
}

proof fn lemma_session_request_environment(s: StateView, q: RequestView)
    ensures
        spec_session_request(s, q) matches Some((t, _)) ==> t.environment == environment_after(s.environment, q),
{
}

proof fn lemma_window_request_environment(s: StateView, q: RequestView)
    ensures
        spec_window_request(s, q) matches Some((t, _)) ==> t.environment == s.environment,
{
}

proof fn lemma_pane_request_environment(s: StateView, q: RequestView)
    ensures
        spec_pane_request(s, q) matches Some((t, _)) ==> t.environment == s.environment,
{
}

/// The request a request comes down to: a raw command's parse, or itself.
pub open spec fn parsed_request(q: RequestView) -> Option<RequestView> {
    match q {
        RequestView::ExecuteRaw { command } => match crate::command::raw_request(crate::text::ws_tokens(command)) {
            Ok(q2) => Some(q2),
            Err(_) => None,
        },
        _ => Some(q),
    }
}

/// Only setting a variable and killing the server change the environment:
/// a request sets it as `environment_after` says when it is answered, and
/// leaves it as it was when refused or when it does not parse.
pub proof fn law_request_environment(s: StateView, c: CompatView, q: RequestView)
    ensures
        spec_handle(s, c, q).0.environment == match parsed_request(q) {
            Some(q2) => if crate::dispatch::request_fits(q2, s) {
                environment_after(s.environment, q2)
            } else {
                s.environment
            },
            None => s.environment,
        },
{
    reveal(spec_handle);
    if let Some(q2) = parsed_request(q) {
        lemma_session_request_environment(s, q2);
        lemma_window_request_environment(s, q2);
        lemma_pane_request_environment(s, q2);
        if let RequestView::CompatCommand { name, target, args } = q2 {
            lemma_compat_tables(s, c, name, target, args);
        }
        if let RequestView::ExecuteRaw { command } = q {
            crate::dispatch::lemma_raw_request_not_raw(crate::text::ws_tokens(command));
        }
    }
}

/// A fresh server, and one whose server was killed, has no variable set.
pub proof fn law_fresh_environment_empty(s: StateView, m: Seq<char>)
    ensures
        crate::tables::table_show(crate::state::initial_state().environment, Some(m)) == Seq::<(Seq<char>, Seq<char>)>::empty(),
        crate::tables::table_show(crate::state::spec_kill_server(s).environment, Some(m)) == Seq::<(Seq<char>, Seq<char>)>::empty(),
{
    assert(crate::tables::table_lookup(seq![], m) is None);
}


/// The state and tables after handling requests one after another.
pub open spec fn after_requests(s: StateView, c: CompatView, qs: Seq<RequestView>) -> (StateView, CompatView)
    decreases qs.len(),
{
    if qs.len() == 0 {
        (s, c)
    } else {
        let (s1, c1) = after_requests(s, c, qs.drop_last());
        let r = spec_handle(s1, c1, qs.last());
        (r.0, r.1)
    }
}

/// Whether a request comes down to setting the variable `m`.
pub open spec fn sets_variable(q: RequestView, m: Seq<char>) -> bool {
    parsed_request(q) matches Some(RequestView::SetEnvironment { name, .. }) && name == m
}

/// The value a request that sets a variable sets.
pub open spec fn value_set(q: RequestView) -> Seq<char> {
    match parsed_request(q) {
        Some(RequestView::SetEnvironment { value, .. }) => value,
        _ => seq![],
    }
}

/// Whether a request comes down to killing the server.
pub open spec fn kills_server(q: RequestView) -> bool {
    parsed_request(q) matches Some(RequestView::KillServer)
}

proof fn lemma_request_lookup(s: StateView, c: CompatView, q: RequestView, m: Seq<char>)
    requires
        kept(s),
        !sets_variable(q, m),
        !kills_server(q),
    ensures
        crate::tables::table_lookup(spec_handle(s, c, q).0.environment, m) == crate::tables::table_lookup(s.environment, m),
{
    law_request_environment(s, c, q);
    if let Some(RequestView::SetEnvironment { name, value }) = parsed_request(q) {
        law_table_insert(s.environment, name, value);
        assert(crate::tables::table_lookup(crate::tables::table_insert(s.environment, name, value), m)
            == crate::tables::table_lookup(s.environment, m));
    }
}

/// Over any run of requests from a state that keeps its invariants: the
/// invariants still hold; a variable that was unset and that no request
/// sets stays unset; and a variable that some request set to `v`, with no
/// later request setting it or killing the server, reads `v`.  (Setting a
/// variable never needs room, so it is always answered.)
pub proof fn law_environment_history(s: StateView, c: CompatView, qs: Seq<RequestView>, m: Seq<char>)
    requires
        kept(s),
    ensures
        kept(after_requests(s, c, qs).0),
        crate::tables::table_lookup(s.environment, m) is None && (forall|k: int|
            0 <= k < qs.len() ==> !sets_variable(#[trigger] qs[k], m) && !kills_server(qs[k])) ==> crate::tables::table_lookup(
            after_requests(s, c, qs).0.environment,
            m,
        ) is None,
        forall|k: int|
            0 <= k < qs.len() && sets_variable(#[trigger] qs[k], m) && (forall|j: int|
                k < j < qs.len() ==> !sets_variable(#[trigger] qs[j], m) && !kills_server(qs[j]))
                ==> crate::tables::table_lookup(after_requests(s, c, qs).0.environment, m) == Some(value_set(qs[k])),
    decreases qs.len(),
{
    if qs.len() > 0 {
        let init = qs.drop_last();
        law_environment_history(s, c, init, m);
        let (s1, c1) = after_requests(s, c, init);
        let q = qs.last();
        law_handle_keeps(s, c, q);
        law_handle_keeps(s1, c1, q);
        law_request_environment(s1, c1, q);
        let t = spec_handle(s1, c1, q).0;
        assert(after_requests(s, c, qs).0 == t);
        if !sets_variable(q, m) && !kills_server(q) {
            lemma_request_lookup(s1, c1, q, m);
        }
        assert forall|k: int|
            0 <= k < qs.len() && sets_variable(#[trigger] qs[k], m) && (forall|j: int|
                k < j < qs.len() ==> !sets_variable(#[trigger] qs[j], m) && !kills_server(qs[j]))
                implies crate::tables::table_lookup(t.environment, m) == Some(value_set(qs[k])) by {
            if k == qs.len() - 1 {
                law_table_insert(s1.environment, m, value_set(qs[k]));
            } else {
                assert(init[k] == qs[k]);
                assert(!sets_variable(qs[qs.len() - 1], m) && !kills_server(qs[qs.len() - 1]));
                assert forall|j: int| k < j < init.len() implies !sets_variable(#[trigger] init[j], m) && !kills_server(init[j]) by {
                    assert(init[j] == qs[j]);
                }
            }
        }
        if crate::tables::table_lookup(s.environment, m) is None && (forall|k: int|
            0 <= k < qs.len() ==> !sets_variable(#[trigger] qs[k], m) && !kills_server(qs[k])) {
            assert forall|k: int| 0 <= k < init.len() implies !sets_variable(#[trigger] init[k], m) && !kills_server(init[k]) by {
                assert(init[k] == qs[k]);
            }
            assert(!sets_variable(qs[qs.len() - 1], m) && !kills_server(qs[qs.len() - 1]));
        }
    }
}


/// Whether every window holds a pane.
pub open spec fn windows_hold_panes(s: StateView) -> bool {
    forall|i: int, j: int|
        0 <= i < s.sessions.len() && 0 <= j < s.sessions[i].windows.len() ==> (#[trigger] s.sessions[i].windows[j]).panes.len() > 0
}

} // verus!
