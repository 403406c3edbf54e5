//! What holds across the commands on the server state: invariants that
//! every command keeps, and what one command gives back of another.
use vstd::prelude::*;
use crate::text::{first_index, lemma_first_index, lemma_first_index_is, lemma_first_index_none, lemma_first_index_same};
use crate::state::{
    StateView, SessionView, WindowView, PaneView, StateErrorView, session_named, window_named,
    window_with_id, pane_titled, pane_with_id, sel_session, sel_window, sel_pane, sel_session_window,
    sel_target, spec_create_session, spec_rename_session, spec_kill_session, pane_command,
    flip_floating, put_pane, with_pane, put_window, with_session, with_window,
    spec_select_adjacent_window, spec_select_last_window, activate_window, activate_pane,
    spec_select_last_pane, next_preset,
};
use crate::layout::{PresetLayout, leaves, spec_assign, law_assign_leaves, lemma_assign_twice, lemma_assign_own_leaves};
use crate::state::{spec_rotate_window, rotated};
use crate::tables::{table_sorted, table_insert, table_lookup, table_show, law_table_insert, log_push};

verus! {

/// Whether no two sessions share a name.
pub open spec fn names_unique(s: StateView) -> bool {
    forall|a: int, b: int|
        0 <= a < b < s.sessions.len() ==> (#[trigger] s.sessions[a]).name != (#[trigger] s.sessions[b]).name
}

/// Creating, renaming and killing sessions keep session names unique.
pub proof fn law_names_stay_unique(s: StateView, name: Seq<char>, new_name: Seq<char>)
    requires
        names_unique(s),
    ensures
        names_unique(spec_create_session(s, name).0),
        names_unique(spec_rename_session(s, name, new_name).0),
        names_unique(spec_kill_session(s, name).0),
{
    lemma_first_index(s.sessions, session_named(name));
    lemma_first_index(s.sessions, session_named(new_name));
    let c = spec_create_session(s, name).0;
    assert forall|a: int, b: int| 0 <= a < b < c.sessions.len() implies (#[trigger] c.sessions[a]).name
        != (#[trigger] c.sessions[b]).name by {
        if b == s.sessions.len() && c.sessions.len() > s.sessions.len() {
            assert(!session_named(name)(s.sessions[a]));
        } else {
            assert(c.sessions[a] == s.sessions[a]);
            assert(c.sessions[b] == s.sessions[b]);
        }
    }
    let r = spec_rename_session(s, name, new_name).0;
    assert forall|a: int, b: int| 0 <= a < b < r.sessions.len() implies (#[trigger] r.sessions[a]).name
        != (#[trigger] r.sessions[b]).name by {
        let i = first_index(s.sessions, session_named(name));
        if first_index(s.sessions, session_named(new_name)) is None && i is Some {
            let i = i->0;
            if a == i {
                assert(!session_named(new_name)(s.sessions[b]));
            } else if b == i {
                assert(!session_named(new_name)(s.sessions[a]));
            } else {
                assert(r.sessions[a] == s.sessions[a]);
                assert(r.sessions[b] == s.sessions[b]);
            }
        } else {
            assert(r.sessions[a] == s.sessions[a]);
            assert(r.sessions[b] == s.sessions[b]);
        }
    }
    let k = spec_kill_session(s, name).0;
    assert forall|a: int, b: int| 0 <= a < b < k.sessions.len() implies (#[trigger] k.sessions[a]).name
        != (#[trigger] k.sessions[b]).name by {
        match first_index(s.sessions, session_named(name)) {
            Some(i) => {
                let a0 = if a < i { a } else { a + 1 };
                let b0 = if b < i { b } else { b + 1 };
                assert(k.sessions[a] == s.sessions[a0]);
                assert(k.sessions[b] == s.sessions[b0]);
                assert(s.sessions[a0].name != s.sessions[b0].name);
            },
            None => {
                assert(k.sessions[a] == s.sessions[a]);
                assert(k.sessions[b] == s.sessions[b]);
            },
        }
    }
}

/// A created session can be found by its name; once it is killed, and
/// names were unique, no session has that name any more.
pub proof fn law_create_then_kill(s: StateView, name: Seq<char>)
    requires
        names_unique(s),
    ensures
        first_index(spec_create_session(s, name).0.sessions, session_named(name)) is Some,
        spec_kill_session(s, name).1 is Ok ==> first_index(
            spec_kill_session(s, name).0.sessions,
            session_named(name),
        ) is None,
{
    let c = spec_create_session(s, name);
    lemma_first_index(s.sessions, session_named(name));
    if c.1 is Ok {
        crate::text::lemma_first_index_exists(c.0.sessions, session_named(name));
        assert(session_named(name)(c.0.sessions[s.sessions.len() as int]));
    } else {
        crate::text::lemma_first_index_exists(s.sessions, session_named(name));
    }
    let k = spec_kill_session(s, name);
    if k.1 is Ok {
        let i = first_index(s.sessions, session_named(name))->0;
        assert forall|j: int| 0 <= j < k.0.sessions.len() implies !session_named(name)(#[trigger] k.0.sessions[j]) by {
            let j0 = if j < i { j } else { j + 1 };
            assert(k.0.sessions[j] == s.sessions[j0]);
            if j0 > i {
                assert(s.sessions[i].name != s.sessions[j0].name);
            }
        }
        lemma_first_index_none(k.0.sessions, session_named(name));
    }
}

/// Setting an option (or an environment variable) keeps the table in order
/// of names; reading the name back gives the value set, and every other
/// name keeps its value.
pub proof fn law_option_read_after_write(t: Seq<(Seq<char>, Seq<char>)>, name: Seq<char>, value: Seq<char>, other: Seq<char>)
    requires
        table_sorted(t),
    ensures
        table_sorted(table_insert(t, name, value)),
        table_show(table_insert(t, name, value), Some(name)) == seq![(name, value)],
        other != name ==> table_show(table_insert(t, name, value), Some(other)) == table_show(t, Some(other)),
{
    law_table_insert(t, name, value);
    assert(table_lookup(table_insert(t, name, value), name) == Some(value));
    assert(table_lookup(table_insert(t, name, value), other) == if other == name {
        Some(value)
    } else {
        table_lookup(t, other)
    });
}

/// The message log keeps the last 200 messages: a new message is always
/// the last one, and the log never grows past 200.
pub proof fn law_message_log(log: Seq<Seq<char>>, message: Seq<char>)
    requires
        log.len() <= 200,
    ensures
        log_push(log, message).len() <= 200,
        log_push(log, message).last() == message,
        log.len() < 200 ==> log_push(log, message) == log.push(message),
        log.len() == 200 ==> log_push(log, message) == log.drop_first().push(message),
{
    if log.len() == 200 {
        assert(log_push(log, message) =~= log.drop_first().push(message));
    }
}

/// Toggling a pane's floating flag twice gives back the state it started
/// from.
pub proof fn law_toggle_floating_twice(
    s: StateView,
    session_name: Option<Seq<char>>,
    window_selector: Option<Seq<char>>,
    pane_selector: Option<Seq<char>>,
)
    ensures
        ({
            let once = pane_command(s, sel_target(s, session_name, window_selector, pane_selector, true), flip_floating(), false).0;
            pane_command(
                once,
                sel_target(once, session_name, window_selector, pane_selector, true),
                flip_floating(),
                false,
            ).0 == s
        }),
{
    let target = sel_target(s, session_name, window_selector, pane_selector, true);
    let once = pane_command(s, target, flip_floating(), false).0;
    if let Ok((i, j, k)) = target {
        crate::state::lemma_sel_session_bounds(s.sessions, session_name);
        crate::state::lemma_sel_bounds(s.sessions[i], window_selector, true);
        crate::state::lemma_sel_pane_bounds(s.sessions[i].windows[j], pane_selector, true);
        lemma_same_selection(s, once, i, j, k, session_name, window_selector, pane_selector);
        let p = s.sessions[i].windows[j].panes[k];
        let twice = pane_command(once, target, flip_floating(), false).0;
        assert(twice.sessions[i].windows[j].panes =~= s.sessions[i].windows[j].panes);
        assert(twice.sessions[i].windows =~= s.sessions[i].windows);
        assert(twice.sessions =~= s.sessions);
    }
}

/// Changing one pane without touching any name, title, id or active mark
/// leaves every selection as it was.
proof fn lemma_same_selection(
    s: StateView,
    t: StateView,
    i: int,
    j: int,
    k: int,
    session_name: Option<Seq<char>>,
    window_selector: Option<Seq<char>>,
    pane_selector: Option<Seq<char>>,
)
    requires
        0 <= i < s.sessions.len(),
        0 <= j < s.sessions[i].windows.len(),
        0 <= k < s.sessions[i].windows[j].panes.len(),
        t == put_pane(s, i, j, k, PaneView { floating: !s.sessions[i].windows[j].panes[k].floating, ..s.sessions[i].windows[j].panes[k] }),
    ensures
        sel_target(t, session_name, window_selector, pane_selector, true) == sel_target(s, session_name, window_selector, pane_selector, true),
{
    if let Some(n) = session_name {
        lemma_first_index_same(t.sessions, session_named(n), s.sessions, session_named(n));
    }
    match sel_session(s.sessions, session_name) {
        Err(_) => {},
        Ok(x) => {
            crate::state::lemma_sel_session_bounds(s.sessions, session_name);
            let a = t.sessions[x];
            let b = s.sessions[x];
            lemma_first_index_same(a.windows, window_with_id(a.active_window_id), b.windows, window_with_id(b.active_window_id));
            if let Some(sel) = window_selector {
                lemma_first_index_same(a.windows, window_named(sel), b.windows, window_named(sel));
                if let Some(id) = crate::text::parse_unsigned(sel, u64::MAX as nat) {
                    lemma_first_index_same(a.windows, window_with_id(id as u64), b.windows, window_with_id(id as u64));
                }
            }
            match sel_window(b, window_selector, true) {
                Err(_) => {},
                Ok(y) => {
                    crate::state::lemma_sel_bounds(b, window_selector, true);
                    let wa = a.windows[y];
                    let wb = b.windows[y];
                    lemma_first_index_same(wa.panes, pane_with_id(wa.active_pane_id), wb.panes, pane_with_id(wb.active_pane_id));
                    if let Some(sel) = pane_selector {
                        lemma_first_index_same(wa.panes, pane_titled(sel), wb.panes, pane_titled(sel));
                        if let Some(id) = crate::text::parse_unsigned(sel, u64::MAX as nat) {
                            lemma_first_index_same(wa.panes, pane_with_id(id as u64), wb.panes, pane_with_id(id as u64));
                        }
                    }
                },
            }
        },
    }
}


// ---------------------------------------------------------------------------
// Moving between windows
// ---------------------------------------------------------------------------

/// Whether no two windows of a session share an id.
pub open spec fn window_ids_distinct(sv: SessionView) -> bool {
    forall|a: int, b: int|
        0 <= a < b < sv.windows.len() ==> (#[trigger] sv.windows[a]).id != (#[trigger] sv.windows[b]).id
}

/// Whether the session's active window is one of its windows.
pub open spec fn active_window_present(sv: SessionView) -> bool {
    first_index(sv.windows, window_with_id(sv.active_window_id)) is Some
}

/// A session whose active window (and the window it left) changed keeps
/// its place in the selection of sessions.
proof fn lemma_session_selection_kept(s: StateView, i: int, sv: SessionView, name: Option<Seq<char>>)
    requires
        0 <= i < s.sessions.len(),
        sv.name == s.sessions[i].name,
    ensures
        sel_session(with_session(s, i, sv).sessions, name) == sel_session(s.sessions, name),
{
    if let Some(n) = name {
        lemma_first_index_same(with_session(s, i, sv).sessions, session_named(n), s.sessions, session_named(n));
    }
}

/// With distinct window ids, the window with the id of window `j` is
/// window `j`.
proof fn lemma_window_found(sv: SessionView, j: int)
    requires
        window_ids_distinct(sv),
        0 <= j < sv.windows.len(),
    ensures
        first_index(sv.windows, window_with_id(sv.windows[j].id)) == Some(j),
{
    assert forall|x: int| 0 <= x < j implies !window_with_id(sv.windows[j].id)(#[trigger] sv.windows[x]) by {
        assert(sv.windows[x].id != sv.windows[j].id);
    }
    lemma_first_index_is(sv.windows, window_with_id(sv.windows[j].id), j);
}

/// Selecting the previous window undoes selecting the next one: the window
/// that was active is active again, and the session keeps its windows.
pub proof fn law_previous_undoes_next(s: StateView, name: Option<Seq<char>>)
    requires
        sel_session(s.sessions, name) is Ok,
        window_ids_distinct(s.sessions[sel_session(s.sessions, name)->Ok_0]),
        active_window_present(s.sessions[sel_session(s.sessions, name)->Ok_0]),
    ensures
        ({
            let i = sel_session(s.sessions, name)->Ok_0;
            let s0 = s.sessions[i];
            let t = spec_select_adjacent_window(s, name, true).0;
            let r = spec_select_adjacent_window(t, name, false).1;
            &&& spec_select_adjacent_window(s, name, true).1 is Ok
            &&& r matches Ok((sv, w)) && w.id == s0.active_window_id && sv.active_window_id == s0.active_window_id
                && sv.windows == s0.windows
        }),
{
    let i = sel_session(s.sessions, name)->Ok_0;
    crate::state::lemma_sel_session_bounds(s.sessions, name);
    let s0 = s.sessions[i];
    lemma_first_index(s0.windows, window_with_id(s0.active_window_id));
    let cur = first_index(s0.windows, window_with_id(s0.active_window_id))->0;
    let n = s0.windows.len();
    let j = (cur + 1) % (n as int);
    let s1 = activate_window(s0, s0.windows[j].id);
    let t = with_session(s, i, s1);
    assert(spec_select_adjacent_window(s, name, true).0 == t);
    lemma_session_selection_kept(s, i, s1, name);
    assert(t.sessions[i] == s1);
    assert(window_ids_distinct(s1));
    lemma_window_found(s1, j);
    let back = if j == 0 { n - 1 } else { j - 1 };
    if cur + 1 < n {
        assert((cur + 1) % (n as int) == cur + 1) by (nonlinear_arith)
            requires
                0 <= cur + 1 < n,
        ;
    } else {
        assert((cur + 1) % (n as int) == 0) by (nonlinear_arith)
            requires
                cur + 1 == n,
                n > 0,
        ;
    }
    assert(back == cur);
    lemma_window_found(s0, cur);
}

/// Selecting the last window twice comes back to where it started, when
/// the window left last is still there and is not the active one.
pub proof fn law_last_window_round_trip(s: StateView, name: Option<Seq<char>>)
    requires
        sel_session(s.sessions, name) is Ok,
        window_ids_distinct(s.sessions[sel_session(s.sessions, name)->Ok_0]),
        active_window_present(s.sessions[sel_session(s.sessions, name)->Ok_0]),
        s.sessions[sel_session(s.sessions, name)->Ok_0].last_window_id matches Some(l)
            && l != s.sessions[sel_session(s.sessions, name)->Ok_0].active_window_id
            && first_index(s.sessions[sel_session(s.sessions, name)->Ok_0].windows, window_with_id(l)) is Some,
    ensures
        ({
            let i = sel_session(s.sessions, name)->Ok_0;
            let s0 = s.sessions[i];
            let l = s0.last_window_id->0;
            let (t, r) = spec_select_last_window(s, name);
            let (u, r2) = spec_select_last_window(t, name);
            &&& r matches Ok((sv, w)) && w.id == l && sv.active_window_id == l
                && sv.last_window_id == Some(s0.active_window_id) && sv.windows == s0.windows
            &&& r2 matches Ok((sv2, w2)) && w2.id == s0.active_window_id
                && sv2.active_window_id == s0.active_window_id && sv2.last_window_id == Some(l)
                && sv2.windows == s0.windows
        }),
{
    let i = sel_session(s.sessions, name)->Ok_0;
    crate::state::lemma_sel_session_bounds(s.sessions, name);
    let s0 = s.sessions[i];
    let l = s0.last_window_id->0;
    lemma_first_index(s0.windows, window_with_id(l));
    let j = first_index(s0.windows, window_with_id(l))->0;
    let s1 = activate_window(s0, s0.windows[j].id);
    let t = with_session(s, i, s1);
    assert(spec_select_last_window(s, name).0 == t);
    lemma_session_selection_kept(s, i, s1, name);
    assert(t.sessions[i] == s1);
    lemma_first_index(s0.windows, window_with_id(s0.active_window_id));
    let k = first_index(s0.windows, window_with_id(s0.active_window_id))->0;
    assert(s1.windows == s0.windows);
    assert(first_index(s1.windows, window_with_id(s0.active_window_id)) == Some(k));
}


// ---------------------------------------------------------------------------
// Moving between panes
// ---------------------------------------------------------------------------

/// Whether no two panes of a window share an id.
pub open spec fn pane_ids_distinct(w: WindowView) -> bool {
    forall|a: int, b: int| 0 <= a < b < w.panes.len() ==> (#[trigger] w.panes[a]).id != (#[trigger] w.panes[b]).id
}

/// With distinct pane ids, the pane with the id of pane `k` is pane `k`.
proof fn lemma_pane_found(w: WindowView, k: int)
    requires
        pane_ids_distinct(w),
        0 <= k < w.panes.len(),
    ensures
        first_index(w.panes, pane_with_id(w.panes[k].id)) == Some(k),
{
    assert forall|x: int| 0 <= x < k implies !pane_with_id(w.panes[k].id)(#[trigger] w.panes[x]) by {
        assert(w.panes[x].id != w.panes[k].id);
    }
    lemma_first_index_is(w.panes, pane_with_id(w.panes[k].id), k);
}

/// Changing which pane of window `(i, j)` is active leaves the choice of
/// session and window as it was.
proof fn lemma_window_selection_kept(
    s: StateView,
    i: int,
    j: int,
    w: WindowView,
    name: Option<Seq<char>>,
    selector: Option<Seq<char>>,
)
    requires
        0 <= i < s.sessions.len(),
        0 <= j < s.sessions[i].windows.len(),
        w.id == s.sessions[i].windows[j].id,
        w.name == s.sessions[i].windows[j].name,
    ensures
        sel_session_window(put_window(s, i, j, w), name, selector, true) == sel_session_window(s, name, selector, true),
{
    let t = put_window(s, i, j, w);
    lemma_session_selection_kept(s, i, with_window(s.sessions[i], j, w), name);
    match sel_session(s.sessions, name) {
        Err(_) => {},
        Ok(x) => {
            crate::state::lemma_sel_session_bounds(s.sessions, name);
            let a = t.sessions[x];
            let b = s.sessions[x];
            lemma_first_index_same(a.windows, window_with_id(a.active_window_id), b.windows, window_with_id(b.active_window_id));
            if let Some(sel) = selector {
                lemma_first_index_same(a.windows, window_named(sel), b.windows, window_named(sel));
                if let Some(id) = crate::text::parse_unsigned(sel, u64::MAX as nat) {
                    lemma_first_index_same(a.windows, window_with_id(id as u64), b.windows, window_with_id(id as u64));
                }
            }
        },
    }
}

/// Selecting the last pane twice comes back to where it started, when the
/// pane left last is still in the window and is not the active one.
pub proof fn law_last_pane_round_trip(s: StateView, name: Option<Seq<char>>, selector: Option<Seq<char>>)
    requires
        sel_session_window(s, name, selector, true) is Ok,
        ({
            let (i, j) = sel_session_window(s, name, selector, true)->Ok_0;
            let w0 = s.sessions[i].windows[j];
            &&& pane_ids_distinct(w0)
            &&& first_index(w0.panes, pane_with_id(w0.active_pane_id)) is Some
            &&& w0.last_pane_id matches Some(l) && l != w0.active_pane_id
                && first_index(w0.panes, pane_with_id(l)) is Some
        }),
    ensures
        ({
            let (i, j) = sel_session_window(s, name, selector, true)->Ok_0;
            let w0 = s.sessions[i].windows[j];
            let l = w0.last_pane_id->0;
            let (t, r) = spec_select_last_pane(s, name, selector);
            let r2 = spec_select_last_pane(t, name, selector).1;
            &&& r matches Ok((_, w, p)) && p.id == l && w.active_pane_id == l
                && w.last_pane_id == Some(w0.active_pane_id) && w.panes == w0.panes
            &&& r2 matches Ok((_, w2, p2)) && p2.id == w0.active_pane_id
                && w2.active_pane_id == w0.active_pane_id && w2.last_pane_id == Some(l) && w2.panes == w0.panes
        }),
{
    let (i, j) = sel_session_window(s, name, selector, true)->Ok_0;
    crate::state::lemma_sel_session_bounds(s.sessions, name);
    crate::state::lemma_sel_bounds(s.sessions[sel_session(s.sessions, name)->Ok_0], selector, true);
    let w0 = s.sessions[i].windows[j];
    let l = w0.last_pane_id->0;
    lemma_first_index(w0.panes, pane_with_id(l));
    let k = first_index(w0.panes, pane_with_id(l))->0;
    let w1 = activate_pane(with_pane(w0, k, w0.panes[k]), w0.panes[k].id);
    assert(with_pane(w0, k, w0.panes[k]).panes =~= w0.panes);
    let t = put_window(s, i, j, w1);
    assert(spec_select_last_pane(s, name, selector).0 == t);
    lemma_window_selection_kept(s, i, j, w1, name, selector);
    assert(t.sessions[i].windows[j] == w1);
    lemma_first_index(w0.panes, pane_with_id(w0.active_pane_id));
    let m = first_index(w0.panes, pane_with_id(w0.active_pane_id))->0;
    assert(with_pane(w1, m, w1.panes[m]).panes =~= w1.panes);
}


// ---------------------------------------------------------------------------
// Cycling layouts
// ---------------------------------------------------------------------------

/// The layout cycle runs even-horizontal, even-vertical, main-horizontal,
/// main-vertical, tiled and round again; a step forward and a step back
/// return to the preset they started from, and five steps come round.
pub proof fn law_layout_cycle(p: PresetLayout, forward: bool)
    ensures
        next_preset(next_preset(p, forward), !forward) == p,
        next_preset(PresetLayout::EvenHorizontal, true) == PresetLayout::EvenVertical,
        next_preset(PresetLayout::EvenVertical, true) == PresetLayout::MainHorizontal,
        next_preset(PresetLayout::MainHorizontal, true) == PresetLayout::MainVertical,
        next_preset(PresetLayout::MainVertical, true) == PresetLayout::Tiled,
        next_preset(PresetLayout::Tiled, true) == PresetLayout::EvenHorizontal,
        next_preset(PresetLayout::EvenHorizontal, false) == PresetLayout::Tiled,
{
}


// ---------------------------------------------------------------------------
// Rotating panes
// ---------------------------------------------------------------------------

/// Rotating a window's panes up moves each leaf's pane one leaf on (the
/// first to the end) and keeps the tree's shape, the panes and the active
/// pane; rotating down afterwards gives back the state it started from.
pub proof fn law_rotate_round_trip(s: StateView, name: Option<Seq<char>>, selector: Option<Seq<char>>)
    requires
        sel_session_window(s, name, selector, true) is Ok,
        ({
            let (i, j) = sel_session_window(s, name, selector, true)->Ok_0;
            let w0 = s.sessions[i].windows[j];
            &&& w0.panes.len() > 1
            &&& w0.layout_tree matches Some(t) && leaves(t).len() > 1
        }),
    ensures
        ({
            let (i, j) = sel_session_window(s, name, selector, true)->Ok_0;
            let w0 = s.sessions[i].windows[j];
            let t = w0.layout_tree->0;
            let (s1, r) = spec_rotate_window(s, name, selector, true);
            &&& r matches Ok((_, w, _)) && w.layout_tree == Some(spec_assign(t, rotated(leaves(t), true), 0).0)
                && leaves(w.layout_tree->0) == rotated(leaves(t), true) && w.panes == w0.panes
                && w.active_pane_id == w0.active_pane_id
            &&& spec_rotate_window(s1, name, selector, false).0 == s
        }),
{
    let (i, j) = sel_session_window(s, name, selector, true)->Ok_0;
    crate::state::lemma_sel_session_bounds(s.sessions, name);
    crate::state::lemma_sel_bounds(s.sessions[sel_session(s.sessions, name)->Ok_0], selector, true);
    let w0 = s.sessions[i].windows[j];
    let t = w0.layout_tree->0;
    let l = leaves(t);
    let up = rotated(l, true);
    assert(up.len() == l.len());
    law_assign_leaves(t, up, 0);
    let t1 = spec_assign(t, up, 0).0;
    assert(up.subrange(0, l.len() as int) =~= up);
    assert(leaves(t1) == up);
    let w1 = WindowView { layout_tree: Some(t1), ..w0 };
    let s1 = put_window(s, i, j, w1);
    assert(spec_rotate_window(s, name, selector, true).0 == s1);
    lemma_window_selection_kept(s, i, j, w1, name, selector);
    assert(s1.sessions[i].windows[j] == w1);
    let down = rotated(up, false);
    assert(down =~= l);
    lemma_assign_twice(t, up, 0, l, 0);
    lemma_assign_own_leaves(t, l, 0);
    assert(spec_assign(t1, down, 0).0 == t);
    let w2 = WindowView { layout_tree: Some(t), ..w1 };
    assert(w2 == w0);
    assert(put_window(s1, i, j, w2).sessions[i].windows =~= s.sessions[i].windows);
    assert(put_window(s1, i, j, w2).sessions =~= s.sessions);
}

} // verus!
