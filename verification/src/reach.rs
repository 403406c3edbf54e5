//! What every request keeps of the shape of the state: every session has a
//! window and every window a pane, and the ids of the active window and the
//! active pane name existing ones.  Each operation on the state keeps it,
//! so the requests and the steps after the runtime reports keep it too.
use vstd::prelude::*;
use crate::state::{with_session, put_window, with_window, with_pane, activate_window, activate_pane, sel_session, sel_window, sel_pane, sel_session_window, sel_target, lemma_sel_session_bounds, lemma_sel_bounds, lemma_sel_pane_bounds, detach_pane, StateView, SessionView, WindowView, PaneView, StateErrorView, spec_create_session, spec_kill_session, spec_rename_session, spec_attach_session, spec_detach_client, spec_lock_session, spec_create_window, spec_kill_window, spec_rename_window, spec_select_window, spec_select_adjacent_window, spec_select_last_window, spec_split_window, spec_kill_pane, spec_select_last_pane, spec_resize_pane, spec_resize_window, spec_break_pane, spec_swap_panes, spec_rotate_window, spec_join_pane, spec_apply_layout, spec_cycle_layout, spec_set_pane_output, pane_command};
use crate::layout::{WindowLayout, PresetLayout, ResizeDirection};
verus! {

proof fn lemma_with_session(s: StateView, i: int, sv: SessionView)
    requires
        well_formed(s),
        0 <= i < s.sessions.len(),
        session_holds(sv),
    ensures
        well_formed(with_session(s, i, sv)),
{
    assert forall|k: int| 0 <= k < with_session(s, i, sv).sessions.len() implies #[trigger] session_holds(
        with_session(s, i, sv).sessions[k],
    ) by {
        if k != i {
            assert(with_session(s, i, sv).sessions[k] == s.sessions[k]);
        }
    }
}

proof fn lemma_put_window(s: StateView, i: int, j: int, w: WindowView)
    requires
        well_formed(s),
        0 <= i < s.sessions.len(),
        0 <= j < s.sessions[i].windows.len(),
        window_holds(w),
        w.id == s.sessions[i].windows[j].id,
    ensures
        well_formed(put_window(s, i, j, w)),
{
    let sv = with_window(s.sessions[i], j, w);
    assert(session_holds(s.sessions[i]));
    let x = choose|x: int| 0 <= x < s.sessions[i].windows.len() && (#[trigger] s.sessions[i].windows[x]).id == s.sessions[i].active_window_id;
    assert(sv.windows[x].id == sv.active_window_id);
    assert forall|k: int| 0 <= k < sv.windows.len() implies #[trigger] window_holds(sv.windows[k]) by {
        if k != j {
            assert(sv.windows[k] == s.sessions[i].windows[k]);
        }
    }
    lemma_with_session(s, i, sv);
}

/// A window whose panes keep their ids, in order, and whose active id stays.
proof fn lemma_same_ids(w: WindowView, w2: WindowView)
    requires
        window_holds(w),
        w2.panes.len() == w.panes.len(),
        forall|k: int| 0 <= k < w.panes.len() ==> (#[trigger] w2.panes[k]).id == w.panes[k].id,
        w2.active_pane_id == w.active_pane_id,
    ensures
        window_holds(w2),
{
    let x = choose|x: int| 0 <= x < w.panes.len() && (#[trigger] w.panes[x]).id == w.active_pane_id;
    assert(w2.panes[x].id == w2.active_pane_id);
}

/// Making one of a window's panes active keeps the window holding.
proof fn lemma_activate_pane(w: WindowView, k: int)
    requires
        w.panes.len() > 0,
        0 <= k < w.panes.len(),
    ensures
        window_holds(crate::state::activate_pane(w, w.panes[k].id)),
{
    let w2 = crate::state::activate_pane(w, w.panes[k].id);
    assert(w2.panes[k].id == w2.active_pane_id);
}

/// Removing a pane from a window of two or more keeps it holding.
proof fn lemma_detach_pane(w: WindowView, k: int)
    requires
        window_holds(w),
        w.panes.len() > 1,
        0 <= k < w.panes.len(),
    ensures
        window_holds(detach_pane(w, k)),
        detach_pane(w, k).id == w.id,
{
    let id = w.panes[k].id;
    let rest = w.panes.remove(k);
    if w.active_pane_id == id {
        let w1 = WindowView { panes: rest, layout_tree: detach_pane(w, k).layout_tree, ..w };
        lemma_activate_pane(w1, 0);
        assert(detach_pane(w, k) == crate::state::activate_pane(w1, w1.panes[0].id));
    } else {
        let x = choose|x: int| 0 <= x < w.panes.len() && (#[trigger] w.panes[x]).id == w.active_pane_id;
        let y = if x < k { x } else { x - 1 };
        assert(rest[y] == w.panes[x]);
        assert(detach_pane(w, k).panes[y].id == detach_pane(w, k).active_pane_id);
    }
}

/// Making one of a session's windows active keeps the session holding.
proof fn lemma_activate_window(sv: SessionView, j: int)
    requires
        forall|x: int| 0 <= x < sv.windows.len() ==> #[trigger] window_holds(sv.windows[x]),
        0 <= j < sv.windows.len(),
    ensures
        session_holds(activate_window(sv, sv.windows[j].id)),
{
    let sv2 = activate_window(sv, sv.windows[j].id);
    assert(sv2.windows[j].id == sv2.active_window_id);
}

proof fn lemma_target_bounds(s: StateView, a: Option<Seq<char>>, b: Option<Seq<char>>, c: Option<Seq<char>>, d: bool)
    ensures
        sel_target(s, a, b, c, d) matches Ok((i, j, k)) ==> 0 <= i < s.sessions.len() && 0 <= j < s.sessions[i].windows.len()
            && 0 <= k < s.sessions[i].windows[j].panes.len(),
        sel_session_window(s, a, b, d) matches Ok((i, j)) ==> 0 <= i < s.sessions.len() && 0 <= j < s.sessions[i].windows.len(),
        sel_session(s.sessions, a) matches Ok(i) ==> 0 <= i < s.sessions.len(),
{
    lemma_sel_session_bounds(s.sessions, a);
    if let Ok(i) = sel_session(s.sessions, a) {
        lemma_sel_bounds(s.sessions[i], b, d);
        lemma_sel_bounds(s.sessions[i], b, true);
        if let Ok(j) = sel_window(s.sessions[i], b, true) {
            lemma_sel_pane_bounds(s.sessions[i].windows[j], c, d);
        }
        if let Ok(j) = sel_window(s.sessions[i], b, d) {
            lemma_sel_pane_bounds(s.sessions[i].windows[j], c, d);
        }
    }
}
/// Whether a window has a pane and its active pane is one of them.
pub open spec fn window_holds(w: WindowView) -> bool {
    &&& w.panes.len() > 0
    &&& exists|k: int| 0 <= k < w.panes.len() && (#[trigger] w.panes[k]).id == w.active_pane_id
}
/// Whether a session has a window, its active window is one of them, and
/// each of its windows holds.
pub open spec fn session_holds(sv: SessionView) -> bool {
    &&& sv.windows.len() > 0
    &&& exists|j: int| 0 <= j < sv.windows.len() && (#[trigger] sv.windows[j]).id == sv.active_window_id
    &&& forall|j: int| 0 <= j < sv.windows.len() ==> #[trigger] window_holds(sv.windows[j])
}
/// Whether every session holds: every session has a window and every window
/// a pane, and the active window and pane ids name existing ones.
pub open spec fn well_formed(s: StateView) -> bool {
    forall|i: int| 0 <= i < s.sessions.len() ==> #[trigger] session_holds(s.sessions[i])
}
/// `create_session` keeps the state well formed.
pub broadcast proof fn kept_by_create_session(s: StateView, a: Seq<char>)
    requires
        well_formed(s),
    ensures
        #[trigger] well_formed(spec_create_session(s, a).0),
{
    let (t, r) = spec_create_session(s, a);
    if let Ok(sv) = r {
        let w = sv.windows[0];
        assert(w.panes[0].id == w.active_pane_id);
        assert(window_holds(w));
        assert(sv.windows[0].id == sv.active_window_id);
        assert(session_holds(sv));
        assert forall|k: int| 0 <= k < t.sessions.len() implies #[trigger] session_holds(t.sessions[k]) by {
            if k < s.sessions.len() {
                assert(t.sessions[k] == s.sessions[k]);
            }
        }
    }
}
/// `kill_session` keeps the state well formed.
pub broadcast proof fn kept_by_kill_session(s: StateView, a: Seq<char>)
    requires
        well_formed(s),
    ensures
        #[trigger] well_formed(spec_kill_session(s, a).0),
{
    if let Some(i) = crate::text::first_index(s.sessions, crate::state::session_named(a)) {
        crate::text::lemma_first_index(s.sessions, crate::state::session_named(a));
        let rest = s.sessions.remove(i);
        assert forall|k: int| 0 <= k < rest.len() implies #[trigger] session_holds(rest[k]) by {
            if k < i { assert(rest[k] == s.sessions[k]); } else { assert(rest[k] == s.sessions[k + 1]); }
        }
    }
}
/// `rename_session` keeps the state well formed.
pub broadcast proof fn kept_by_rename_session(s: StateView, a: Seq<char>, b: Seq<char>)
    requires
        well_formed(s),
    ensures
        #[trigger] well_formed(spec_rename_session(s, a, b).0),
{
    lemma_target_bounds(s, Some(a), None, None, true);
    if let Ok(i) = sel_session(s.sessions, Some(a)) {
        let sv = SessionView { name: b, ..s.sessions[i] };
        assert(session_holds(s.sessions[i]));
        lemma_with_session(s, i, sv);
    }
}
/// `attach_session` keeps the state well formed.
pub broadcast proof fn kept_by_attach_session(s: StateView, oa: Option<Seq<char>>)
    requires
        well_formed(s),
    ensures
        #[trigger] well_formed(spec_attach_session(s, oa).0),
{}
/// `detach_client` keeps the state well formed.
pub broadcast proof fn kept_by_detach_client(s: StateView, oa: Option<Seq<char>>)
    requires
        well_formed(s),
    ensures
        #[trigger] well_formed(spec_detach_client(s, oa).0),
{}
/// `lock_session` keeps the state well formed.
pub broadcast proof fn kept_by_lock_session(s: StateView, oa: Option<Seq<char>>)
    requires
        well_formed(s),
    ensures
        #[trigger] well_formed(spec_lock_session(s, oa).0),
{}
/// `create_window` keeps the state well formed.
pub broadcast proof fn kept_by_create_window(s: StateView, oa: Option<Seq<char>>, ob: Option<Seq<char>>)
    requires
        well_formed(s),
    ensures
        #[trigger] well_formed(spec_create_window(s, oa, ob).0),
{
    lemma_target_bounds(s, oa, None, None, true);
    if let Ok(i) = sel_session(s.sessions, oa) {
        let t = spec_create_window(s, oa, ob).0;
        assert(session_holds(s.sessions[i]));
        let sv2 = t.sessions[i];
        let m = s.sessions[i].windows.len() as int;
        let nw = sv2.windows[m];
        assert(nw.panes[0].id == nw.active_pane_id);
        assert forall|k: int| 0 <= k < sv2.windows.len() implies #[trigger] window_holds(sv2.windows[k]) by {
            if k < m { assert(sv2.windows[k] == s.sessions[i].windows[k]); }
        }
        assert(sv2.windows[m].id == sv2.active_window_id);
        lemma_with_session(s, i, sv2);
        assert(t.sessions =~= with_session(s, i, sv2).sessions);
    }
}
/// `kill_window` keeps the state well formed.
pub broadcast proof fn kept_by_kill_window(s: StateView, oa: Option<Seq<char>>, ob: Option<Seq<char>>)
    requires
        well_formed(s),
    ensures
        #[trigger] well_formed(spec_kill_window(s, oa, ob).0),
{
    lemma_target_bounds(s, oa, ob, None, true);
    if let Ok(i) = sel_session(s.sessions, oa) {
        let sv = s.sessions[i];
        assert(session_holds(sv));
        if sv.windows.len() > 1 {
            if let Ok(j) = sel_window(sv, ob, true) {
                let rest = sv.windows.remove(j);
                assert forall|k: int| 0 <= k < rest.len() implies #[trigger] window_holds(rest[k]) by {
                    if k < j { assert(rest[k] == sv.windows[k]); } else { assert(rest[k] == sv.windows[k + 1]); }
                }
                let r2 = SessionView { windows: rest, ..sv };
                if sv.active_window_id == sv.windows[j].id {
                    lemma_activate_window(r2, 0);
                    lemma_with_session(s, i, activate_window(r2, rest[0].id));
                } else {
                    let x = choose|x: int| 0 <= x < sv.windows.len() && (#[trigger] sv.windows[x]).id == sv.active_window_id;
                    let y = if x < j { x } else { x - 1 };
                    assert(rest[y] == sv.windows[x]);
                    assert(session_holds(r2));
                    lemma_with_session(s, i, r2);
                }
            }
        }
    }
}
/// `rename_window` keeps the state well formed.
pub broadcast proof fn kept_by_rename_window(s: StateView, oa: Option<Seq<char>>, ob: Option<Seq<char>>, a: Seq<char>)
    requires
        well_formed(s),
    ensures
        #[trigger] well_formed(spec_rename_window(s, oa, ob, a).0),
{
    lemma_target_bounds(s, oa, ob, None, true);
    if let Ok((i, j)) = sel_session_window(s, oa, ob, true) {
        assert(session_holds(s.sessions[i]));
        assert(window_holds(s.sessions[i].windows[j]));
        lemma_put_window(s, i, j, WindowView { name: a, ..s.sessions[i].windows[j] });
    }
}
/// `select_window` keeps the state well formed.
pub broadcast proof fn kept_by_select_window(s: StateView, oa: Option<Seq<char>>, a: Seq<char>)
    requires
        well_formed(s),
    ensures
        #[trigger] well_formed(spec_select_window(s, oa, a).0),
{
    lemma_target_bounds(s, oa, Some(a), None, false);
    if let Ok((i, j)) = sel_session_window(s, oa, Some(a), false) {
        assert(session_holds(s.sessions[i]));
        lemma_with_session(s, i, activate_window(s.sessions[i], s.sessions[i].windows[j].id));
    }
}
/// `select_adjacent_window` keeps the state well formed.
pub broadcast proof fn kept_by_select_adjacent_window(s: StateView, oa: Option<Seq<char>>, f: bool)
    requires
        well_formed(s),
    ensures
        #[trigger] well_formed(spec_select_adjacent_window(s, oa, f).0),
{
    lemma_target_bounds(s, oa, None, None, true);
    if let Ok((i, cur)) = sel_session_window(s, oa, None, true) {
        assert(session_holds(s.sessions[i]));
        let n = s.sessions[i].windows.len();
        let j = if f { (cur + 1) % (n as int) } else if cur == 0 { n - 1 } else { cur - 1 };
        assert(0 <= j < n) by (nonlinear_arith)
            requires 0 <= cur < n, j == (if f { (cur + 1) % (n as int) } else if cur == 0 { n - 1 } else { cur - 1 });
        lemma_with_session(s, i, activate_window(s.sessions[i], s.sessions[i].windows[j].id));
    }
}
/// `select_last_window` keeps the state well formed.
pub broadcast proof fn kept_by_select_last_window(s: StateView, oa: Option<Seq<char>>)
    requires
        well_formed(s),
    ensures
        #[trigger] well_formed(spec_select_last_window(s, oa).0),
{
    lemma_target_bounds(s, oa, None, None, true);
    if let Ok(i) = sel_session(s.sessions, oa) {
        assert(session_holds(s.sessions[i]));
        let sv = s.sessions[i];
        let target = match sv.last_window_id { Some(id) => id, None => sv.active_window_id };
        crate::text::lemma_first_index(sv.windows, crate::state::window_with_id(target));
        if let Some(j) = crate::text::first_index(sv.windows, crate::state::window_with_id(target)) {
            lemma_with_session(s, i, activate_window(sv, sv.windows[j].id));
        }
    }
}
/// `split_window` keeps the state well formed.
pub broadcast proof fn kept_by_split_window(s: StateView, oa: Option<Seq<char>>, ob: Option<Seq<char>>, oc: Option<Seq<char>>, l: WindowLayout)
    requires
        well_formed(s),
    ensures
        #[trigger] well_formed(spec_split_window(s, oa, ob, oc, l).0),
{
    lemma_target_bounds(s, oa, ob, None, true);
    if let Ok((i, j)) = sel_session_window(s, oa, ob, true) {
        let t = spec_split_window(s, oa, ob, oc, l).0;
        assert(session_holds(s.sessions[i]));
        let sv2 = t.sessions[i];
        let w2 = sv2.windows[j];
        let m = s.sessions[i].windows[j].panes.len() as int;
        assert(w2.panes[m].id == w2.active_pane_id);
        assert forall|k: int| 0 <= k < sv2.windows.len() implies #[trigger] window_holds(sv2.windows[k]) by {
            if k != j { assert(sv2.windows[k] == s.sessions[i].windows[k]); }
        }
        assert(sv2.windows[j].id == sv2.active_window_id);
        lemma_with_session(s, i, sv2);
        assert(t.sessions =~= with_session(s, i, sv2).sessions);
    }
}
/// `kill_pane` keeps the state well formed.
pub broadcast proof fn kept_by_kill_pane(s: StateView, oa: Option<Seq<char>>, ob: Option<Seq<char>>, oc: Option<Seq<char>>)
    requires
        well_formed(s),
    ensures
        #[trigger] well_formed(spec_kill_pane(s, oa, ob, oc).0),
{
    lemma_target_bounds(s, oa, ob, oc, true);
    if let Ok((i, j)) = sel_session_window(s, oa, ob, true) {
        let w = s.sessions[i].windows[j];
        if w.panes.len() > 1 {
            lemma_sel_pane_bounds(w, oc, true);
            if let Ok(k) = sel_pane(w, oc, true) {
                assert(session_holds(s.sessions[i]));
                lemma_detach_pane(w, k);
                lemma_put_window(s, i, j, detach_pane(w, k));
            }
        }
    }
}
/// `select_last_pane` keeps the state well formed.
pub broadcast proof fn kept_by_select_last_pane(s: StateView, oa: Option<Seq<char>>, ob: Option<Seq<char>>)
    requires
        well_formed(s),
    ensures
        #[trigger] well_formed(spec_select_last_pane(s, oa, ob).0),
{
    lemma_target_bounds(s, oa, ob, None, true);
    if let Ok((i, j)) = sel_session_window(s, oa, ob, true) {
        let w = s.sessions[i].windows[j];
        let target = match w.last_pane_id { Some(x) => x, None => w.active_pane_id };
        crate::text::lemma_first_index(w.panes, crate::state::pane_with_id(target));
        if let Some(k) = crate::text::first_index(w.panes, crate::state::pane_with_id(target)) {
            kept_by_pane_command(s, Ok((i, j, k)), crate::state::same_pane(), true);
        }
    }
}
/// `resize_pane` keeps the state well formed.
pub broadcast proof fn kept_by_resize_pane(s: StateView, oa: Option<Seq<char>>, ob: Option<Seq<char>>, oc: Option<Seq<char>>, d: ResizeDirection, n: u16)
    requires
        well_formed(s),
    ensures
        #[trigger] well_formed(spec_resize_pane(s, oa, ob, oc, d, n).0),
{
    lemma_target_bounds(s, oa, ob, oc, true);
    if let Ok((i, j, k)) = sel_target(s, oa, ob, oc, true) {
        assert(session_holds(s.sessions[i]));
        let w = s.sessions[i].windows[j];
        assert(window_holds(w));
        let delta: u16 = if n == 0 { 1 } else { n };
        let rows = crate::state::window_extent(w.panes, true, 40);
        let cols = crate::state::window_extent(w.panes, false, 120);
        let moved = match w.layout_tree {
            Some(t) => crate::layout::spec_resize(t, w.panes[k].id, d, delta, cols, rows).1,
            None => false,
        };
        if moved {
            lemma_put_window(s, i, j, WindowView {
                layout_tree: Some(crate::layout::spec_resize(w.layout_tree->0, w.panes[k].id, d, delta, cols, rows).0),
                ..w
            });
        } else {
            let w2 = with_pane(w, k, crate::state::hinted_size(w.panes[k], d, delta as int));
            lemma_same_ids(w, w2);
            lemma_put_window(s, i, j, w2);
        }
    }
}
/// `resize_window` keeps the state well formed.
pub broadcast proof fn kept_by_resize_window(s: StateView, oa: Option<Seq<char>>, ob: Option<Seq<char>>, n: u16, m: u16)
    requires
        well_formed(s),
    ensures
        #[trigger] well_formed(spec_resize_window(s, oa, ob, n, m).0),
{
    lemma_target_bounds(s, oa, ob, None, true);
    if let Ok((i, j)) = sel_session_window(s, oa, ob, true) {
        assert(session_holds(s.sessions[i]));
        assert(window_holds(s.sessions[i].windows[j]));
        let w = s.sessions[i].windows[j];
        let r = if n == 0 { 1u16 } else { n };
        let c = if m == 0 { 1u16 } else { m };
        let w2 = WindowView { panes: w.panes.map_values(crate::state::sized(r, c)), ..w };
        lemma_same_ids(w, w2);
        lemma_put_window(s, i, j, w2);
    }
}
/// `break_pane` keeps the state well formed.
pub broadcast proof fn kept_by_break_pane(s: StateView, oa: Option<Seq<char>>, ob: Option<Seq<char>>, oc: Option<Seq<char>>, od: Option<Seq<char>>)
    requires
        well_formed(s),
    ensures
        #[trigger] well_formed(spec_break_pane(s, oa, ob, oc, od).0),
{
    lemma_target_bounds(s, oa, ob, oc, true);
    if let Ok((i, j)) = sel_session_window(s, oa, ob, true) {
        assert(session_holds(s.sessions[i]));
        assert(window_holds(s.sessions[i].windows[j]));
        let sv = s.sessions[i];
        let w = sv.windows[j];
        if w.panes.len() > 1 {
            lemma_sel_pane_bounds(w, oc, true);
            if let Ok(k) = sel_pane(w, oc, true) {
                let (t, r) = spec_break_pane(s, oa, ob, oc, od);
                let sv2 = t.sessions[i];
                lemma_detach_pane(w, k);
                let m = sv.windows.len() as int;
                assert(sv2.windows[m].panes[0].id == sv2.windows[m].active_pane_id);
                assert forall|x: int| 0 <= x < sv2.windows.len() implies #[trigger] window_holds(sv2.windows[x]) by {
                    if x < sv.windows.len() && x != j { assert(sv2.windows[x] == sv.windows[x]); }
                }
                assert(sv2.windows[m].id == sv2.active_window_id);
                lemma_with_session(s, i, sv2);
                assert(t.sessions =~= with_session(s, i, sv2).sessions);
            }
        }
    }
}
/// `swap_panes` keeps the state well formed.
pub broadcast proof fn kept_by_swap_panes(s: StateView, oa: Option<Seq<char>>, ob: Option<Seq<char>>, oc: Option<Seq<char>>, od: Option<Seq<char>>)
    requires
        well_formed(s),
    ensures
        #[trigger] well_formed(spec_swap_panes(s, oa, ob, oc, od).0),
{
    lemma_target_bounds(s, oa, ob, oc, true);
    if let Ok((i, j)) = sel_session_window(s, oa, ob, true) {
        assert(session_holds(s.sessions[i]));
        assert(window_holds(s.sessions[i].windows[j]));
        let (t, r) = spec_swap_panes(s, oa, ob, oc, od);
        if let Ok((_, w2, _)) = r {
            if s.sessions[i].windows[j].panes.len() > 1 {
                lemma_same_ids(s.sessions[i].windows[j], w2);
                lemma_put_window(s, i, j, w2);
            }
        }
    }
}
/// `rotate_window` keeps the state well formed.
pub broadcast proof fn kept_by_rotate_window(s: StateView, oa: Option<Seq<char>>, ob: Option<Seq<char>>, f: bool)
    requires
        well_formed(s),
    ensures
        #[trigger] well_formed(spec_rotate_window(s, oa, ob, f).0),
{
    lemma_target_bounds(s, oa, ob, None, true);
    if let Ok((i, j)) = sel_session_window(s, oa, ob, true) {
        assert(session_holds(s.sessions[i]));
        assert(window_holds(s.sessions[i].windows[j]));
        let (t, r) = spec_rotate_window(s, oa, ob, f);
        let w = s.sessions[i].windows[j];
        if let Ok((_, w2, _)) = r {
            if w2.panes == w.panes {
                lemma_same_ids(w, w2);
            } else {
                let x = choose|x: int| 0 <= x < w.panes.len() && (#[trigger] w.panes[x]).id == w.active_pane_id;
                let n = w.panes.len() as int;
                let y = if f { if x == 0 { n - 1 } else { x - 1 } } else { if x == n - 1 { 0 } else { x + 1 } };
                assert(w2.panes[y] == w.panes[x]);
                assert(window_holds(w2));
            }
            lemma_put_window(s, i, j, w2);
        }
    }
}
/// `join_pane` keeps the state well formed.
pub broadcast proof fn kept_by_join_pane(s: StateView, oa: Option<Seq<char>>, ob: Option<Seq<char>>, oc: Option<Seq<char>>, od: Option<Seq<char>>, oe: Option<Seq<char>>)
    requires
        well_formed(s),
    ensures
        #[trigger] well_formed(spec_join_pane(s, oa, ob, oc, od, oe).0),
{
    lemma_target_bounds(s, oa, ob, oc, true);
    lemma_target_bounds(s, oa, od, oe, true);
    if let Ok(i) = sel_session(s.sessions, oa) {
        let sv = s.sessions[i];
        assert(session_holds(sv));
        if let (Ok(sj), Ok(dj)) = (sel_window(sv, ob, true), sel_window(sv, od, true)) {
            let src = sv.windows[sj];
            assert(window_holds(src));
            assert(window_holds(sv.windows[dj]));
            if sj != dj && src.panes.len() > 1 {
                lemma_sel_pane_bounds(src, oc, true);
                if let Ok(k) = sel_pane(src, oc, true) {
                    let src2 = detach_pane(src, k);
                    lemma_detach_pane(src, k);
                    lemma_put_window(s, i, sj, src2);
                    let (t, r) = spec_join_pane(s, oa, ob, oc, od, oe);
                    if let Ok((sv2, _, dst2, pane)) = r {
                        let dst = sv.windows[dj];
                        let at = match oe {
                            Some(dd) => sel_pane(dst, Some(dd), false)->Ok_0,
                            None => dst.panes.len() as int,
                        };
                        lemma_sel_pane_bounds(dst, oe, false);
                        let ins = WindowView { panes: dst.panes.insert(at, pane), layout_tree: dst2.layout_tree, ..dst };
                        assert(ins.panes[at] == pane);
                        lemma_activate_pane(ins, at);
                        assert(dst2 == crate::state::activate_pane(ins, pane.id));
                        let sv1 = SessionView { windows: sv.windows.update(sj, src2).update(dj, dst2), ..sv };
                        assert forall|x: int| 0 <= x < sv1.windows.len() implies #[trigger] window_holds(sv1.windows[x]) by {
                            if x != sj && x != dj { assert(sv1.windows[x] == sv.windows[x]); }
                        }
                        lemma_activate_window(sv1, dj);
                        assert(sv2 == activate_window(sv1, sv1.windows[dj].id));
                        lemma_with_session(s, i, sv2);
                        assert(t.sessions =~= with_session(s, i, sv2).sessions);
                    }
                }
            }
        }
    }
}
/// `apply_layout` keeps the state well formed.
pub broadcast proof fn kept_by_apply_layout(s: StateView, oa: Option<Seq<char>>, ob: Option<Seq<char>>, p: PresetLayout)
    requires
        well_formed(s),
    ensures
        #[trigger] well_formed(spec_apply_layout(s, oa, ob, p).0),
{
    lemma_target_bounds(s, oa, ob, None, true);
    if let Ok((i, j)) = sel_session_window(s, oa, ob, true) {
        assert(session_holds(s.sessions[i]));
        assert(window_holds(s.sessions[i].windows[j]));
        let (t, r) = spec_apply_layout(s, oa, ob, p);
        if let Ok((_, w2)) = r {
            lemma_same_ids(s.sessions[i].windows[j], w2);
            lemma_put_window(s, i, j, w2);
        }
    }
}
/// `cycle_layout` keeps the state well formed.
pub broadcast proof fn kept_by_cycle_layout(s: StateView, oa: Option<Seq<char>>, ob: Option<Seq<char>>, f: bool)
    requires
        well_formed(s),
    ensures
        #[trigger] well_formed(spec_cycle_layout(s, oa, ob, f).0),
{
    lemma_target_bounds(s, oa, ob, None, true);
    if let Ok((i, j)) = sel_session_window(s, oa, ob, true) {
        assert(session_holds(s.sessions[i]));
        assert(window_holds(s.sessions[i].windows[j]));
        let next = crate::state::next_preset(s.sessions[i].windows[j].current_layout, f);
        kept_by_apply_layout(s, oa, ob, next);
        let (t, r) = spec_apply_layout(s, oa, ob, next);
        if let Ok((sv, _)) = r {
            lemma_target_bounds(t, Some(sv.name), ob, None, true);
            if let Ok((i2, j2)) = sel_session_window(t, Some(sv.name), ob, true) {
                assert(session_holds(t.sessions[i2]));
                let w2 = crate::state::WindowView { current_layout: next, ..t.sessions[i2].windows[j2] };
                assert(window_holds(t.sessions[i2].windows[j2]));
                lemma_same_ids(t.sessions[i2].windows[j2], w2);
                lemma_put_window(t, i2, j2, w2);
            }
        }
    }
}
/// `set_pane_output` keeps the state well formed.
pub broadcast proof fn kept_by_set_pane_output(s: StateView, id: u64, a: Seq<char>)
    requires
        well_formed(s),
    ensures
        #[trigger] well_formed(spec_set_pane_output(s, id, a).0),
{
    let p = crate::state::session_has_pane(id);
    crate::text::lemma_first_index(s.sessions, p);
    if let Some(i) = crate::text::first_index(s.sessions, p) {
        let sv = s.sessions[i];
        crate::text::lemma_first_index(sv.windows, crate::state::window_has_pane(id));
        let j = crate::text::first_index(sv.windows, crate::state::window_has_pane(id))->0;
        let w = sv.windows[j];
        crate::text::lemma_first_index(w.panes, crate::state::pane_with_id(id));
        let k = crate::text::first_index(w.panes, crate::state::pane_with_id(id))->0;
        assert(session_holds(sv));
        assert(window_holds(w));
        lemma_same_ids(w, with_pane(w, k, PaneView { last_output: Some(a), ..w.panes[k] }));
        lemma_put_window(s, i, j, with_pane(w, k, PaneView { last_output: Some(a), ..w.panes[k] }));
    }
}
/// `pane_command` keeps the state well formed.
pub broadcast proof fn kept_by_pane_command(s: StateView, tg: Result<(int, int, int), StateErrorView>, g: spec_fn(PaneView) -> PaneView, f: bool)
    requires
        well_formed(s),
        tg matches Ok((i, j, k)) ==> 0 <= i < s.sessions.len() && 0 <= j < s.sessions[i].windows.len()
            && 0 <= k < s.sessions[i].windows[j].panes.len(),
        forall|q: PaneView| (#[trigger] g(q)).id == q.id,
    ensures
        #[trigger] well_formed(pane_command(s, tg, g, f).0),
{
    if let Ok((i, j, k)) = tg {
        if 0 <= i < s.sessions.len() && 0 <= j < s.sessions[i].windows.len() && 0 <= k < s.sessions[i].windows[j].panes.len() {
            assert(session_holds(s.sessions[i]));
            let w0 = s.sessions[i].windows[j];
            let w = with_pane(w0, k, g(w0.panes[k]));
            assert(window_holds(w0));
            assert(g(w0.panes[k]).id == w0.panes[k].id);
            lemma_same_ids(w0, w);
            lemma_activate_pane(w, k);
            lemma_put_window(s, i, j, if f { activate_pane(w, g(s.sessions[i].windows[j].panes[k]).id) } else { w });
        }
    }
}

/// `send_keys` keeps the state well formed.
pub broadcast proof fn kept_by_send_keys(
    s: StateView,
    tg: Result<(int, int, int), StateErrorView>,
    keys: Seq<Seq<char>>,
    literal: bool,
    output: Option<Seq<char>>,
)
    requires
        well_formed(s),
        tg matches Ok((i, j, k)) ==> 0 <= i < s.sessions.len() && 0 <= j < s.sessions[i].windows.len()
            && 0 <= k < s.sessions[i].windows[j].panes.len(),
    ensures
        #[trigger] well_formed(crate::state::spec_send_keys(s, tg, keys, literal, output).0),
{
    kept_by_pane_command(s, tg, crate::state::record_keys(crate::state::keys_payload(keys, literal), output), true);
}

/// The operations' keeping of well-formedness, for use together.
pub broadcast group group_well_formed {
    kept_by_create_session,
    kept_by_kill_session,
    kept_by_rename_session,
    kept_by_attach_session,
    kept_by_detach_client,
    kept_by_lock_session,
    kept_by_create_window,
    kept_by_kill_window,
    kept_by_rename_window,
    kept_by_select_window,
    kept_by_select_adjacent_window,
    kept_by_select_last_window,
    kept_by_split_window,
    kept_by_kill_pane,
    kept_by_select_last_pane,
    kept_by_resize_pane,
    kept_by_resize_window,
    kept_by_break_pane,
    kept_by_swap_panes,
    kept_by_rotate_window,
    kept_by_join_pane,
    kept_by_apply_layout,
    kept_by_cycle_layout,
    kept_by_set_pane_output,
    kept_by_send_keys,
}

proof fn lemma_session_request_holds(s: StateView, q: crate::proto::RequestView)
    requires
        well_formed(s),
    ensures
        crate::dispatch::spec_session_request(s, q) matches Some((t, _)) ==> well_formed(t),
{
    broadcast use group_well_formed;
}

proof fn lemma_window_request_holds(s: StateView, q: crate::proto::RequestView)
    requires
        well_formed(s),
    ensures
        crate::dispatch::spec_window_request(s, q) matches Some((t, _)) ==> well_formed(t),
{
    broadcast use group_well_formed;
}

proof fn lemma_pane_request_holds(s: StateView, q: crate::proto::RequestView)
    requires
        well_formed(s),
    ensures
        crate::dispatch::spec_pane_request(s, q) matches Some((t, _)) ==> well_formed(t),
{
    broadcast use group_well_formed;
    match q {
        crate::proto::RequestView::SelectPane { session, window, pane } => {
            lemma_target_bounds(s, session, window, Some(pane), false);
            kept_by_pane_command(s, sel_target(s, session, window, Some(pane), false), crate::state::same_pane(), true);
        },
        crate::proto::RequestView::SendKeys { session, window, pane, .. } => {
            lemma_target_bounds(s, session, window, pane, true);
        },
        crate::proto::RequestView::ToggleFloating { session, window, pane } => {
            lemma_target_bounds(s, session, window, pane, true);
            kept_by_pane_command(s, sel_target(s, session, window, pane, true), crate::state::flip_floating(), false);
        },
        _ => {},
    }
}

proof fn lemma_compat_cmds_hold(
    s: StateView,
    c: crate::compat::CompatView,
    d: crate::command::TargetView,
    args: Seq<Seq<char>>,
    rendered: Seq<char>,
    name: Seq<char>,
)
    requires
        well_formed(s),
    ensures
        well_formed(crate::compat::cmd_resize_window(s, c, d, args, rendered).0),
        well_formed(crate::compat::cmd_swap_pane(s, c, d, args, rendered).0),
        well_formed(crate::compat::cmd_join_pane(s, c, d, args, rendered).0),
        well_formed(crate::compat::cmd_select_layout(s, c, d, args, rendered).0),
        well_formed(crate::compat::cmd_cycle_layout(s, c, d, name, rendered).0),
        well_formed(crate::compat::cmd_pipe_pane(s, c, d, args, rendered).0),
{
    broadcast use group_well_formed;
}

proof fn lemma_compat_states_hold(s: StateView, d: crate::command::TargetView, args: Seq<Seq<char>>)
    requires
        well_formed(s),
    ensures
        well_formed(crate::state::spec_rotate_window(s, d.session, d.window, args.contains("-U"@)).0),
        well_formed(
            crate::state::spec_break_pane(s, d.session, d.window, d.pane, crate::compat::flag_value_from(args, "-n"@, 0)).0,
        ),
        well_formed(pane_command(s, sel_target(s, d.session, d.window, d.pane, true), crate::state::clear_io(), true).0),
        well_formed(
            pane_command(s, sel_target(s, d.session, d.window, d.pane, true), crate::state::clear_output(), false).0,
        ),
{
    kept_by_rotate_window(s, d.session, d.window, args.contains("-U"@));
    kept_by_break_pane(s, d.session, d.window, d.pane, crate::compat::flag_value_from(args, "-n"@, 0));
    lemma_target_bounds(s, d.session, d.window, d.pane, true);
    kept_by_pane_command(s, sel_target(s, d.session, d.window, d.pane, true), crate::state::clear_io(), true);
    kept_by_pane_command(s, sel_target(s, d.session, d.window, d.pane, true), crate::state::clear_output(), false);
}

#[verifier::spinoff_prover]
#[verifier::rlimit(60)]
proof fn lemma_compat_holds(
    s: StateView,
    c: crate::compat::CompatView,
    name: Seq<char>,
    target: Option<Seq<char>>,
    args: Seq<Seq<char>>,
)
    requires
        well_formed(s),
    ensures
        well_formed(crate::compat::spec_compat(s, c, name, target, args).0),
{
    let d = crate::compat::opt_target(target);
    let rendered = crate::compat::compat_text(name, target, args);
    lemma_compat_cmds_hold(s, c, d, args, rendered, name);
    lemma_compat_states_hold(s, d, args);
}


proof fn lemma_handle_parsed_holds(s: StateView, c: crate::compat::CompatView, q: crate::proto::RequestView)
    requires
        well_formed(s),
    ensures
        well_formed(crate::dispatch::spec_handle_parsed(s, c, q).0),
{
    lemma_session_request_holds(s, q);
    lemma_window_request_holds(s, q);
    lemma_pane_request_holds(s, q);
    if let crate::proto::RequestView::CompatCommand { name, target, args } = q {
        lemma_compat_holds(s, c, name, target, args);
    }
}

/// Every request keeps the state well formed.
pub proof fn law_handle_keeps_well_formed(s: StateView, c: crate::compat::CompatView, q: crate::proto::RequestView)
    requires
        well_formed(s),
    ensures
        well_formed(crate::dispatch::spec_handle(s, c, q).0),
{
    reveal(crate::dispatch::spec_handle);
    match crate::invariants::parsed_request(q) {
        Some(q2) => lemma_handle_parsed_holds(s, c, q2),
        None => {},
    }
}

proof fn lemma_outputs_hold(s: StateView, v: Seq<(u64, Seq<char>)>)
    requires
        well_formed(s),
    ensures
        well_formed(crate::dispatch::apply_outputs(s, v)),
    decreases v.len(),
{
    if v.len() > 0 {
        lemma_outputs_hold(s, v.drop_last());
        kept_by_set_pane_output(crate::dispatch::apply_outputs(s, v.drop_last()), v.last().0, v.last().1);
    }
}

/// Going on after the runtime reports keeps the state well formed.
pub proof fn law_resume_keeps_well_formed(
    s: StateView,
    c: crate::compat::CompatView,
    p: crate::effects::PendingView,
    e: crate::effects::Event,
)
    requires
        well_formed(s),
    ensures
        well_formed(crate::dispatch::spec_resume(s, c, p, e).0),
{
    match p {
        crate::effects::PendingView::ShellTested { rendered, true_cmd, false_cmd } => {
            let c2 = crate::compat::recorded(c, rendered);
            law_handle_keeps_well_formed(s, c2, crate::proto::RequestView::ExecuteRaw { command: true_cmd });
            if let Some(f) = false_cmd {
                law_handle_keeps_well_formed(s, c2, crate::proto::RequestView::ExecuteRaw { command: f });
            }
        },
        crate::effects::PendingView::ListPanes { .. } | crate::effects::PendingView::CapturePane { .. } => {
            if let crate::effects::Event::Outputs(v) = e {
                lemma_outputs_hold(s, crate::dispatch::outputs_view(v@));
            }
        },
        crate::effects::PendingView::OutputRead { pane_id, .. } => {
            if let crate::effects::Event::Output(Some(o)) = e {
                kept_by_set_pane_output(s, pane_id, o@);
            }
        },
        _ => {},
    }
}

/// A fresh server, and one whose server was killed, is well formed.
pub proof fn law_fresh_well_formed(s: StateView)
    ensures
        well_formed(crate::state::initial_state()),
        well_formed(crate::state::spec_kill_server(s)),
{
}

} // verus!
