//! The text of the client's bars: the metadata panel, the window and pane
//! bar, and the status templates of the configuration.
use vstd::prelude::*;
use crate::text::{
    first_index, lemma_first_index_is, lemma_first_index_none, decimal, push_decimal, lit,
    append_str, push_char, views_of, join_with, join_strings, parse_unsigned, parse_usize,
    str_eq, chars_of, string_of_range, trim, trim_exec, ascii_lower,
};
use crate::proto::{SessionInfo, SessionInfoView, WindowInfo, WindowInfoView, PaneInfo, PaneInfoView};
use crate::ui::{UiSnapshot, SnapshotView, key_order, positions, order_by_key};

verus! {

// ---------------------------------------------------------------------------
// The metadata panel
// ---------------------------------------------------------------------------

/// The panel line of a session.
pub open spec fn meta_session_line(s: SessionInfoView) -> Seq<char> {
    "  id="@ + decimal(s.id as nat) + " name="@ + s.name + " windows="@ + decimal(s.windows as nat)
        + " panes="@ + decimal(s.panes as nat)
}

/// The panel line of a window: a star marks the active ones.
pub open spec fn meta_window_line(w: WindowInfoView) -> Seq<char> {
    "  "@ + (if w.active {
        "*"@
    } else {
        " "@
    }) + " "@ + w.session_name + ":"@ + w.window_name + " panes="@ + decimal(w.pane_count as nat)
}

/// Some lines, or `  <none>` where there are none.
pub open spec fn or_none(ls: Seq<Seq<char>>) -> Seq<Seq<char>> {
    if ls.len() == 0 {
        seq!["  <none>"@]
    } else {
        ls
    }
}

/// The metadata panel: the sessions, then the windows.
pub open spec fn meta_lines(s: SnapshotView) -> Seq<Seq<char>> {
    seq!["--- metadata ---"@, "sessions:"@] + or_none(
        s.sessions.map_values(|x: SessionInfoView| meta_session_line(x)),
    ) + seq!["windows:"@] + or_none(s.windows.map_values(|w: WindowInfoView| meta_window_line(w)))
}

fn meta_session_line_exec(x: &SessionInfo) -> (r: String)
    ensures
        r@ == meta_session_line(x@),
{
    let mut s = lit("  id=");
    push_decimal(&mut s, x.id);
    append_str(&mut s, " name=");
    append_str(&mut s, x.name.as_str());
    append_str(&mut s, " windows=");
    push_decimal(&mut s, x.windows as u64);
    append_str(&mut s, " panes=");
    push_decimal(&mut s, x.panes as u64);
    s
}

fn meta_window_line_exec(w: &WindowInfo) -> (r: String)
    ensures
        r@ == meta_window_line(w@),
{
    let mut s = lit("  ");
    if w.active {
        append_str(&mut s, "*");
    } else {
        append_str(&mut s, " ");
    }
    append_str(&mut s, " ");
    append_str(&mut s, w.session_name.as_str());
    append_str(&mut s, ":");
    append_str(&mut s, w.window_name.as_str());
    append_str(&mut s, " panes=");
    push_decimal(&mut s, w.pane_count as u64);
    s
}

fn push_line(v: &mut Vec<String>, s: String)
    ensures
        views_of(final(v)@) == views_of(old(v)@).push(s@),
{
    v.push(s);
    proof {
        assert(views_of(final(v)@) =~= views_of(old(v)@).push(s@));
    }
}

/// The metadata panel.
pub fn build_meta_lines(snapshot: &UiSnapshot) -> (r: Vec<String>)
    ensures
        views_of(r@) == meta_lines(snapshot@),
{
    let ghost sv = snapshot@;
    let mut lines: Vec<String> = Vec::new();
    push_line(&mut lines, lit("--- metadata ---"));
    push_line(&mut lines, lit("sessions:"));
    let ghost head = views_of(lines@);
    let ghost want_s = sv.sessions.map_values(|x: SessionInfoView| meta_session_line(x));
    let mut i: usize = 0;
    while i < snapshot.sessions.len()
        invariant
            i <= snapshot.sessions.len(),
            sv == snapshot@,
            want_s == sv.sessions.map_values(|x: SessionInfoView| meta_session_line(x)),
            views_of(lines@) == head + want_s.take(i as int),
        decreases snapshot.sessions.len() - i,
    {
        proof {
            assert(sv.sessions[i as int] == snapshot.sessions@[i as int]@);
        }
        push_line(&mut lines, meta_session_line_exec(&snapshot.sessions[i]));
        proof {
            assert(want_s.take(i + 1) =~= want_s.take(i as int).push(want_s[i as int]));
        }
        i = i + 1;
    }
    proof {
        assert(want_s.take(i as int) =~= want_s);
    }
    if snapshot.sessions.len() == 0 {
        push_line(&mut lines, lit("  <none>"));
    }
    push_line(&mut lines, lit("windows:"));
    let ghost mid = views_of(lines@);
    let ghost want_w = sv.windows.map_values(|w: WindowInfoView| meta_window_line(w));
    let mut j: usize = 0;
    while j < snapshot.windows.len()
        invariant
            j <= snapshot.windows.len(),
            sv == snapshot@,
            want_w == sv.windows.map_values(|w: WindowInfoView| meta_window_line(w)),
            views_of(lines@) == mid + want_w.take(j as int),
        decreases snapshot.windows.len() - j,
    {
        proof {
            assert(sv.windows[j as int] == snapshot.windows@[j as int]@);
        }
        push_line(&mut lines, meta_window_line_exec(&snapshot.windows[j]));
        proof {
            assert(want_w.take(j + 1) =~= want_w.take(j as int).push(want_w[j as int]));
        }
        j = j + 1;
    }
    proof {
        assert(want_w.take(j as int) =~= want_w);
    }
    if snapshot.windows.len() == 0 {
        push_line(&mut lines, lit("  <none>"));
    }
    proof {
        assert(views_of(lines@) =~= meta_lines(sv));
    }
    lines
}

// ---------------------------------------------------------------------------
// The window and pane bar
// ---------------------------------------------------------------------------

/// A window of the attached session (of any session when none is attached).
pub open spec fn of_attached(attached: Option<Seq<char>>) -> spec_fn(WindowInfoView) -> bool {
    |w: WindowInfoView| attached is None || attached->0 == w.session_name
}

/// The key the bar orders windows by: the number a window's name is, names
/// that are no number last.
pub open spec fn window_key(name: Seq<char>) -> u64 {
    match parse_unsigned(name, usize::MAX as nat) {
        Some(n) => n as u64,
        None => (usize::MAX - 1) as u64,
    }
}

/// The bar's windows, in order.
pub open spec fn bar_windows(s: SnapshotView) -> Seq<WindowInfoView> {
    let ws = s.windows.filter(of_attached(s.attached));
    key_order(ws.map_values(|w: WindowInfoView| window_key(w.window_name))).map_values(|i: int| ws[i])
}

/// How the bar shows a window: the active one in brackets.
pub open spec fn window_chunk(w: WindowInfoView) -> Seq<char> {
    if w.active {
        "["@ + w.window_name + "]"@
    } else {
        w.window_name
    }
}

/// How the bar shows a pane: the active one in angle brackets.
pub open spec fn pane_chunk(p: PaneInfoView) -> Seq<char> {
    if p.active {
        "<"@ + decimal(p.pane_id as nat) + ">"@
    } else {
        decimal(p.pane_id as nat)
    }
}

/// The bar's panes: those of the first active window on the bar, in
/// ascending order of id.
pub open spec fn bar_panes(s: SnapshotView) -> Seq<PaneInfoView> {
    let ws = bar_windows(s);
    match first_index(ws, |w: WindowInfoView| w.active) {
        None => seq![],
        Some(i) => {
            let ps = crate::ui::window_panes(s, ws[i].session_name, ws[i].window_name);
            key_order(ps.map_values(|p: PaneInfoView| p.pane_id)).map_values(|k: int| ps[k])
        },
    }
}

/// The window and pane bar.
pub open spec fn window_pane_bar(s: SnapshotView) -> Seq<char> {
    "windows: "@ + join_with(bar_windows(s).map_values(|w: WindowInfoView| window_chunk(w)), " "@)
        + " | panes: "@ + join_with(bar_panes(s).map_values(|p: PaneInfoView| pane_chunk(p)), " "@)
}

fn attached_windows(s: &UiSnapshot) -> (r: Vec<usize>)
    ensures
        r@.map_values(|k: usize| s@.windows[k as int]) == s@.windows.filter(of_attached(s@.attached)),
        forall|j: int| 0 <= j < r@.len() ==> #[trigger] r@[j] < s.windows.len(),
{
    let ghost ws = s@.windows;
    let ghost f = of_attached(s@.attached);
    let mut out: Vec<usize> = Vec::new();
    let mut i: usize = 0;
    while i < s.windows.len()
        invariant
            i <= s.windows.len(),
            ws == s@.windows,
            f == of_attached(s@.attached),
            out@.map_values(|k: usize| ws[k as int]) == ws.take(i as int).filter(f),
            forall|j: int| 0 <= j < out@.len() ==> #[trigger] out@[j] < i,
        decreases s.windows.len() - i,
    {
        proof {
            assert(ws[i as int] == s.windows@[i as int]@);
            reveal(Seq::filter);
            assert(ws.take(i + 1).drop_last() =~= ws.take(i as int));
            assert(ws.take(i + 1).last() == ws[i as int]);
        }
        let ghost before = out@;
        let keep = match &s.attached_session {
            None => true,
            Some(a) => str_eq(a.as_str(), s.windows[i].session_name.as_str()),
        };
        if keep {
            out.push(i);
            proof {
                assert(out@.map_values(|k: usize| ws[k as int]) =~= before.map_values(|k: usize| ws[k as int]).push(
                    ws[i as int],
                ));
            }
        }
        i = i + 1;
    }
    proof {
        assert(ws.take(i as int) =~= ws);
    }
    out
}

fn window_key_exec(name: &str) -> (r: u64)
    ensures
        r == window_key(name@),
{
    match parse_usize(name) {
        Some(n) => n as u64,
        None => (usize::MAX - 1) as u64,
    }
}

/// `idx` reordered by `order`.
fn reorder(idx: &Vec<usize>, order: &Vec<usize>) -> (r: Vec<usize>)
    requires
        forall|j: int| 0 <= j < order@.len() ==> #[trigger] order@[j] < idx.len(),
    ensures
        r@ == positions(order@).map_values(|i: int| idx@[i]),
{
    let mut out: Vec<usize> = Vec::new();
    let mut k: usize = 0;
    while k < order.len()
        invariant
            k <= order.len(),
            forall|j: int| 0 <= j < order@.len() ==> #[trigger] order@[j] < idx.len(),
            out@ == positions(order@).map_values(|i: int| idx@[i]).take(k as int),
        decreases order.len() - k,
    {
        out.push(idx[order[k]]);
        proof {
            assert(out@ =~= positions(order@).map_values(|i: int| idx@[i]).take(k + 1));
        }
        k = k + 1;
    }
    proof {
        assert(positions(order@).map_values(|i: int| idx@[i]).take(k as int) =~= positions(order@).map_values(
            |i: int| idx@[i],
        ));
    }
    out
}

fn sorted_bar_windows(s: &UiSnapshot) -> (r: Vec<usize>)
    ensures
        r@.map_values(|k: usize| s@.windows[k as int]) == bar_windows(s@),
        forall|j: int| 0 <= j < r@.len() ==> #[trigger] r@[j] < s.windows.len(),
{
    let idx = attached_windows(s);
    let ghost ws = s@.windows.filter(of_attached(s@.attached));
    let mut keys: Vec<u64> = Vec::new();
    let mut i: usize = 0;
    while i < idx.len()
        invariant
            i <= idx.len(),
            idx@.map_values(|k: usize| s@.windows[k as int]) == ws,
            ws == s@.windows.filter(of_attached(s@.attached)),
            forall|j: int| 0 <= j < idx@.len() ==> #[trigger] idx@[j] < s.windows.len(),
            keys@ == ws.map_values(|w: WindowInfoView| window_key(w.window_name)).take(i as int),
        decreases idx.len() - i,
    {
        proof {
            assert(ws[i as int] == s@.windows[idx@[i as int] as int]);
            assert(s@.windows[idx@[i as int] as int] == s.windows@[idx@[i as int] as int]@);
        }
        keys.push(window_key_exec(s.windows[idx[i]].window_name.as_str()));
        proof {
            assert(keys@ =~= ws.map_values(|w: WindowInfoView| window_key(w.window_name)).take(i + 1));
        }
        i = i + 1;
    }
    proof {
        assert(ws.map_values(|w: WindowInfoView| window_key(w.window_name)).take(i as int) =~= ws.map_values(
            |w: WindowInfoView| window_key(w.window_name),
        ));
    }
    let order = order_by_key(&keys);
    let r = reorder(&idx, &order);
    proof {
        let ko = key_order(ws.map_values(|w: WindowInfoView| window_key(w.window_name)));
        assert(positions(order@) == ko);
        assert forall|j: int| 0 <= j < r@.len() implies #[trigger] r@[j] < s.windows.len() by {
            assert(r@[j] == idx@[positions(order@)[j]]);
            assert(positions(order@)[j] == order@[j] as int);
        }
        assert forall|j: int| 0 <= j < r@.len() implies r@.map_values(|k: usize| s@.windows[k as int])[j]
            == bar_windows(s@)[j] by {
            let p = positions(order@)[j];
            assert(p == order@[j] as int);
            assert(r@[j] == idx@[p]);
            assert(ws[p] == s@.windows[idx@[p] as int]);
        }
        assert(r@.map_values(|k: usize| s@.windows[k as int]) =~= bar_windows(s@));
    }
    r
}

pub(crate) fn sorted_window_panes(s: &UiSnapshot, session: &str, window: &str) -> (r: Vec<usize>)
    ensures
        ({
            let ps = crate::ui::window_panes(s@, session@, window@);
            r@.map_values(|k: usize| s@.panes[k as int]) == key_order(ps.map_values(|p: PaneInfoView| p.pane_id)).map_values(
                |k: int| ps[k],
            )
        }),
        forall|j: int| 0 <= j < r@.len() ==> #[trigger] r@[j] < s.panes.len(),
{
    let idx = crate::ui::window_pane_indices(s, session, window);
    let ghost ps = crate::ui::window_panes(s@, session@, window@);
    let mut keys: Vec<u64> = Vec::new();
    let mut i: usize = 0;
    while i < idx.len()
        invariant
            i <= idx.len(),
            idx@.map_values(|k: usize| s@.panes[k as int]) == ps,
            ps == crate::ui::window_panes(s@, session@, window@),
            forall|j: int| 0 <= j < idx@.len() ==> #[trigger] idx@[j] < s.panes.len(),
            keys@ == ps.map_values(|p: PaneInfoView| p.pane_id).take(i as int),
        decreases idx.len() - i,
    {
        proof {
            assert(ps[i as int] == s@.panes[idx@[i as int] as int]);
            assert(s@.panes[idx@[i as int] as int] == s.panes@[idx@[i as int] as int]@);
        }
        keys.push(s.panes[idx[i]].pane_id);
        proof {
            assert(keys@ =~= ps.map_values(|p: PaneInfoView| p.pane_id).take(i + 1));
        }
        i = i + 1;
    }
    proof {
        assert(ps.map_values(|p: PaneInfoView| p.pane_id).take(i as int) =~= ps.map_values(
            |p: PaneInfoView| p.pane_id,
        ));
    }
    let order = order_by_key(&keys);
    let r = reorder(&idx, &order);
    proof {
        assert forall|j: int| 0 <= j < r@.len() implies #[trigger] r@[j] < s.panes.len() by {
            assert(r@[j] == idx@[positions(order@)[j]]);
            assert(positions(order@)[j] == order@[j] as int);
        }
        let want = key_order(ps.map_values(|p: PaneInfoView| p.pane_id)).map_values(|k: int| ps[k]);
        assert forall|j: int| 0 <= j < r@.len() implies r@.map_values(|k: usize| s@.panes[k as int])[j]
            == want[j] by {
            let p = positions(order@)[j];
            assert(p == order@[j] as int);
            assert(r@[j] == idx@[p]);
            assert(ps[p] == s@.panes[idx@[p] as int]);
        }
        assert(r@.map_values(|k: usize| s@.panes[k as int]) =~= want);
    }
    r
}

fn window_chunk_exec(w: &WindowInfo) -> (r: String)
    ensures
        r@ == window_chunk(w@),
{
    if w.active {
        let mut s = lit("[");
        append_str(&mut s, w.window_name.as_str());
        append_str(&mut s, "]");
        s
    } else {
        w.window_name.clone()
    }
}

fn pane_chunk_exec(p: &PaneInfo) -> (r: String)
    ensures
        r@ == pane_chunk(p@),
{
    if p.active {
        let mut s = lit("<");
        push_decimal(&mut s, p.pane_id);
        append_str(&mut s, ">");
        s
    } else {
        crate::text::u64_to_string(p.pane_id)
    }
}

/// The window and pane bar.
pub fn build_window_pane_bar(s: &UiSnapshot) -> (r: String)
    ensures
        r@ == window_pane_bar(s@),
{
    let order = sorted_bar_windows(s);
    let ghost ws = bar_windows(s@);
    let mut chunks: Vec<String> = Vec::new();
    let mut active: Option<usize> = None;
    let mut i: usize = 0;
    while i < order.len()
        invariant
            i <= order.len(),
            order@.map_values(|k: usize| s@.windows[k as int]) == ws,
            ws == bar_windows(s@),
            forall|j: int| 0 <= j < order@.len() ==> #[trigger] order@[j] < s.windows.len(),
            views_of(chunks@) == ws.map_values(|w: WindowInfoView| window_chunk(w)).take(i as int),
            match active {
                Some(a) => a < i && first_index(ws, |w: WindowInfoView| w.active) == Some(a as int),
                None => forall|j: int| 0 <= j < i ==> !(#[trigger] ws[j]).active,
            },
        decreases order.len() - i,
    {
        proof {
            assert(ws[i as int] == s@.windows[order@[i as int] as int]);
            assert(s@.windows[order@[i as int] as int] == s.windows@[order@[i as int] as int]@);
        }
        let ghost before = views_of(chunks@);
        chunks.push(window_chunk_exec(&s.windows[order[i]]));
        proof {
            assert(views_of(chunks@) =~= before.push(window_chunk(ws[i as int])));
            assert(ws.map_values(|w: WindowInfoView| window_chunk(w)).take(i + 1) =~= ws.map_values(
                |w: WindowInfoView| window_chunk(w),
            ).take(i as int).push(window_chunk(ws[i as int])));
        }
        if active.is_none() && s.windows[order[i]].active {
            proof {
                lemma_first_index_is(ws, |w: WindowInfoView| w.active, i as int);
            }
            active = Some(i);
        }
        i = i + 1;
    }
    proof {
        assert(ws.map_values(|w: WindowInfoView| window_chunk(w)).take(i as int) =~= ws.map_values(
            |w: WindowInfoView| window_chunk(w),
        ));
    }
    let wtext = join_strings(chunks.as_slice(), " ");
    let mut pchunks: Vec<String> = Vec::new();
    match active {
        None => {
            proof {
                lemma_first_index_none(ws, |w: WindowInfoView| w.active);
                assert(views_of(pchunks@) =~= bar_panes(s@).map_values(|p: PaneInfoView| pane_chunk(p)));
            }
        },
        Some(a) => {
            let wi = order[a];
            proof {
                assert(ws[a as int] == s@.windows[wi as int]);
                assert(s@.windows[wi as int] == s.windows@[wi as int]@);
            }
            let porder = sorted_window_panes(s, s.windows[wi].session_name.as_str(), s.windows[wi].window_name.as_str());
            let ghost ps = bar_panes(s@);
            let mut k: usize = 0;
            while k < porder.len()
                invariant
                    k <= porder.len(),
                    porder@.map_values(|q: usize| s@.panes[q as int]) == ps,
                    forall|j: int| 0 <= j < porder@.len() ==> #[trigger] porder@[j] < s.panes.len(),
                    views_of(pchunks@) == ps.map_values(|p: PaneInfoView| pane_chunk(p)).take(k as int),
                decreases porder.len() - k,
            {
                proof {
                    assert(ps[k as int] == s@.panes[porder@[k as int] as int]);
                    assert(s@.panes[porder@[k as int] as int] == s.panes@[porder@[k as int] as int]@);
                }
                let ghost before = views_of(pchunks@);
                pchunks.push(pane_chunk_exec(&s.panes[porder[k]]));
                proof {
                    assert(views_of(pchunks@) =~= before.push(pane_chunk(ps[k as int])));
                    assert(ps.map_values(|p: PaneInfoView| pane_chunk(p)).take(k + 1) =~= ps.map_values(
                        |p: PaneInfoView| pane_chunk(p),
                    ).take(k as int).push(pane_chunk(ps[k as int])));
                }
                k = k + 1;
            }
            proof {
                assert(ps.map_values(|p: PaneInfoView| pane_chunk(p)).take(k as int) =~= ps.map_values(
                    |p: PaneInfoView| pane_chunk(p),
                ));
            }
        },
    }
    let ptext = join_strings(pchunks.as_slice(), " ");
    let mut r = lit("windows: ");
    append_str(&mut r, wtext.as_str());
    append_str(&mut r, " | panes: ");
    append_str(&mut r, ptext.as_str());
    r
}


// ---------------------------------------------------------------------------
// Status templates
// ---------------------------------------------------------------------------

/// Whether a character closes a command.
pub open spec fn close_paren() -> spec_fn(char) -> bool {
    |c: char| c == ')'
}

/// Where the command of a `#(...)` that starts at `from` ends: at its `)`,
/// or at the end of the template.
pub open spec fn command_end(t: Seq<char>, from: int) -> int {
    match first_index(t.skip(from), close_paren()) {
        Some(k) => from + k,
        None => t.len() as int,
    }
}

/// `s` without its trailing newlines.
pub open spec fn trim_trailing_newlines(s: Seq<char>) -> Seq<char>
    decreases s.len(),
{
    if s.len() > 0 && s.last() == '\n' {
        trim_trailing_newlines(s.drop_last())
    } else {
        s
    }
}

/// What the `k`-th command of a template printed, as the template shows it.
pub open spec fn command_output(outs: Seq<Option<Seq<char>>>, k: int) -> Seq<char> {
    if 0 <= k < outs.len() {
        match outs[k] {
            Some(o) => trim_trailing_newlines(o),
            None => seq![],
        }
    } else {
        seq![]
    }
}

/// The values a status template is filled in with.
pub struct StatusValues {
    pub session: Seq<char>,
    pub window: Seq<char>,
    pub pane: Seq<char>,
    pub host: Seq<char>,
    pub clock: Seq<char>,
    pub outputs: Seq<Option<Seq<char>>>,
}

/// A status template filled in from `i` on, `k` commands having run:
/// `#S`, `#W`, `#P`, `#H` and `#T` give the session, window, pane, host and
/// time, `#(...)` what its command printed, and any other `#` stays.
pub open spec fn subst_from(t: Seq<char>, i: int, v: StatusValues, k: int) -> Seq<char>
    decreases t.len() - i,
{
    if i < 0 || i >= t.len() {
        seq![]
    } else if t[i] != '#' {
        seq![t[i]] + subst_from(t, i + 1, v, k)
    } else if i + 1 >= t.len() {
        seq!['#']
    } else {
        let n = t[i + 1];
        if n == 'S' {
            v.session + subst_from(t, i + 2, v, k)
        } else if n == 'W' {
            v.window + subst_from(t, i + 2, v, k)
        } else if n == 'P' {
            v.pane + subst_from(t, i + 2, v, k)
        } else if n == 'H' {
            v.host + subst_from(t, i + 2, v, k)
        } else if n == 'T' {
            v.clock + subst_from(t, i + 2, v, k)
        } else if n == '(' {
            proof {
                crate::text::lemma_first_index(t.skip(i + 2), close_paren());
            }
            let e = command_end(t, i + 2);
            let next = if e < t.len() {
                e + 1
            } else {
                t.len() as int
            };
            if e > i + 2 {
                command_output(v.outputs, k) + subst_from(t, next, v, k + 1)
            } else {
                subst_from(t, next, v, k)
            }
        } else {
            seq!['#', n] + subst_from(t, i + 2, v, k)
        }
    }
}

/// The commands of a template's `#(...)` parts that are not empty, in order.
pub open spec fn commands_from(t: Seq<char>, i: int) -> Seq<Seq<char>>
    decreases t.len() - i,
{
    if i < 0 || i + 1 >= t.len() {
        seq![]
    } else if t[i] != '#' {
        commands_from(t, i + 1)
    } else if t[i + 1] == '(' {
        proof {
            crate::text::lemma_first_index(t.skip(i + 2), close_paren());
        }
        let e = command_end(t, i + 2);
        let next = if e < t.len() {
            e + 1
        } else {
            t.len() as int
        };
        if e > i + 2 {
            seq![t.subrange(i + 2, e)] + commands_from(t, next)
        } else {
            commands_from(t, next)
        }
    } else {
        commands_from(t, i + 2)
    }
}

fn command_end_exec(t: &Vec<char>, from: usize) -> (r: usize)
    requires
        from <= t.len(),
    ensures
        r as int == command_end(t@, from as int),
        from <= r <= t.len(),
{
    let ghost rest = t@.skip(from as int);
    let ghost p = close_paren();
    let mut e = from;
    while e < t.len() && t[e] != ')'
        invariant
            from <= e <= t.len(),
            rest == t@.skip(from as int),
            p == close_paren(),
            forall|j: int| 0 <= j < e - from ==> !p(#[trigger] rest[j]),
        decreases t.len() - e,
    {
        e = e + 1;
    }
    proof {
        if e < t.len() {
            assert(rest[e - from] == t@[e as int]);
            lemma_first_index_is(rest, p, e - from);
        } else {
            lemma_first_index_none(rest, p);
        }
    }
    e
}

/// The commands a status template runs, in order.
pub fn status_commands(template: &str) -> (r: Vec<String>)
    ensures
        views_of(r@) == commands_from(template@, 0),
{
    let t = chars_of(template);
    let mut out: Vec<String> = Vec::new();
    let mut i: usize = 0;
    while i < t.len() && t.len() - i > 1
        invariant
            i <= t.len(),
            t@ == template@,
            views_of(out@) + commands_from(t@, i as int) == commands_from(t@, 0),
        decreases t.len() - i,
    {
        if t[i] != '#' {
            i = i + 1;
        } else if t[i + 1] == '(' {
            let e = command_end_exec(&t, i + 2);
            let next = if e < t.len() {
                e + 1
            } else {
                t.len()
            };
            if e > i + 2 {
                let ghost before = views_of(out@);
                let c = string_of_range(&t, i + 2, e);
                out.push(c);
                proof {
                    assert(views_of(out@) =~= before.push(t@.subrange(i + 2, e as int)));
                    assert(before + commands_from(t@, i as int) == commands_from(t@, 0));
                    assert(views_of(out@) + commands_from(t@, next as int) =~= before + (seq![
                        t@.subrange(i + 2, e as int),
                    ] + commands_from(t@, next as int)));
                }
            }
            i = next;
        } else {
            i = i + 2;
        }
    }
    proof {
        assert(commands_from(t@, i as int) =~= Seq::<Seq<char>>::empty());
        assert(views_of(out@) + Seq::<Seq<char>>::empty() =~= views_of(out@));
    }
    out
}

fn push_trimmed_output(out: &mut String, o: &Option<String>)
    ensures
        final(out)@ == old(out)@ + (match o.deep_view() {
            Some(x) => trim_trailing_newlines(x),
            None => seq![],
        }),
{
    match o {
        None => {
            proof {
                assert(old(out)@ + Seq::<char>::empty() =~= old(out)@);
            }
        },
        Some(x) => {
            let cs = chars_of(x.as_str());
            let mut n = cs.len();
            proof {
                assert(cs@.take(n as int) =~= x@);
            }
            while n > 0 && cs[n - 1] == '\n'
                invariant
                    n <= cs.len(),
                    cs@ == x@,
                    trim_trailing_newlines(cs@.take(n as int)) == trim_trailing_newlines(x@),
                decreases n,
            {
                proof {
                    assert(cs@.take(n as int).drop_last() =~= cs@.take(n - 1));
                }
                n = n - 1;
            }
            proof {
                assert(cs@.take(n as int) =~= cs@.take(n as int));
                if n == cs.len() {
                    assert(cs@.take(n as int) =~= x@);
                }
            }
            let kept = string_of_range(&cs, 0, n);
            proof {
                assert(kept@ =~= cs@.take(n as int));
            }
            append_str(out, kept.as_str());
        },
    }
}

/// A status template filled in: `outputs` holds, for each command of
/// `status_commands`, what it printed, or `None` where it could not run.
pub fn substitute_status(
    template: &str,
    session: &str,
    window: &str,
    pane: &str,
    host: &str,
    clock: &str,
    outputs: &Vec<Option<String>>,
) -> (r: String)
    ensures
        r@ == subst_from(
            template@,
            0,
            StatusValues {
                session: session@,
                window: window@,
                pane: pane@,
                host: host@,
                clock: clock@,
                outputs: outputs@.map_values(|o: Option<String>| o.deep_view()),
            },
            0,
        ),
{
    let ghost v = StatusValues {
        session: session@,
        window: window@,
        pane: pane@,
        host: host@,
        clock: clock@,
        outputs: outputs@.map_values(|o: Option<String>| o.deep_view()),
    };
    let t = chars_of(template);
    let mut out = String::new();
    let mut i: usize = 0;
    let mut k: usize = 0;
    let mut done = false;
    while i < t.len() && !done
        invariant
            i <= t.len(),
            k <= i,
            t@ == template@,
            v == (StatusValues {
                session: session@,
                window: window@,
                pane: pane@,
                host: host@,
                clock: clock@,
                outputs: outputs@.map_values(|o: Option<String>| o.deep_view()),
            }),
            done ==> out@ == subst_from(t@, 0, v, 0),
            !done ==> out@ + subst_from(t@, i as int, v, k as int) == subst_from(t@, 0, v, 0),
        decreases t.len() - i + (if done {
            0int
        } else {
            1int
        }),
    {
        let ghost before = out@;
        let c = t[i];
        if c != '#' {
            push_char(&mut out, c);
            proof {
                assert(before + subst_from(t@, i as int, v, k as int) =~= out@ + subst_from(
                    t@,
                    i + 1,
                    v,
                    k as int,
                ));
            }
            i = i + 1;
        } else if i + 1 >= t.len() {
            push_char(&mut out, '#');
            proof {
                assert(before + subst_from(t@, i as int, v, k as int) =~= out@);
            }
            done = true;
        } else {
            let n = t[i + 1];
            if n == 'S' || n == 'W' || n == 'P' || n == 'H' || n == 'T' {
                let piece = if n == 'S' {
                    session
                } else if n == 'W' {
                    window
                } else if n == 'P' {
                    pane
                } else if n == 'H' {
                    host
                } else {
                    clock
                };
                proof {
                    let want = if n == 'S' {
                        v.session
                    } else if n == 'W' {
                        v.window
                    } else if n == 'P' {
                        v.pane
                    } else if n == 'H' {
                        v.host
                    } else {
                        v.clock
                    };
                    assert(piece@ == want);
                    assert(subst_from(t@, i as int, v, k as int) == want + subst_from(t@, i + 2, v, k as int));
                }
                append_str(&mut out, piece);
                proof {
                    assert(before + subst_from(t@, i as int, v, k as int) =~= out@ + subst_from(
                        t@,
                        i + 2,
                        v,
                        k as int,
                    ));
                }
                i = i + 2;
            } else if n == '(' {
                let e = command_end_exec(&t, i + 2);
                let next = if e < t.len() {
                    e + 1
                } else {
                    t.len()
                };
                if e > i + 2 {
                    if k < outputs.len() {
                        push_trimmed_output(&mut out, &outputs[k]);
                        proof {
                            assert(v.outputs.len() == outputs@.len());
                            assert(v.outputs[k as int] == outputs@[k as int].deep_view());
                        }
                    }
                    proof {
                        assert(before + subst_from(t@, i as int, v, k as int) =~= out@ + subst_from(
                            t@,
                            next as int,
                            v,
                            k + 1,
                        ));
                    }
                    k = k + 1;
                } else {
                    proof {
                        assert(before + subst_from(t@, i as int, v, k as int) =~= out@ + subst_from(
                            t@,
                            next as int,
                            v,
                            k as int,
                        ));
                    }
                }
                i = next;
            } else {
                push_char(&mut out, '#');
                push_char(&mut out, n);
                proof {
                    assert(before + subst_from(t@, i as int, v, k as int) =~= out@ + subst_from(
                        t@,
                        i + 2,
                        v,
                        k as int,
                    ));
                }
                i = i + 2;
            }
        }
    }
    proof {
        if !done {
            assert(subst_from(t@, i as int, v, k as int) =~= Seq::<char>::empty());
            assert(out@ + Seq::<char>::empty() =~= out@);
        }
    }
    out
}


/// Two decimal digits.
pub open spec fn two_digits(n: nat) -> Seq<char> {
    seq![crate::text::digit_char(n / 10), crate::text::digit_char(n % 10)]
}

/// The time of day `now` seconds after the epoch, as `HH:MM`.
pub open spec fn clock_text(now: u64) -> Seq<char> {
    let day = (now % 86400) as nat;
    two_digits(day / 3600) + ":"@ + two_digits((day % 3600) / 60)
}

/// The time of day `now` seconds after the epoch, as `HH:MM`.
pub fn clock_text_exec(now: u64) -> (r: String)
    ensures
        r@ == clock_text(now),
{
    let day = now % 86400;
    let hh = day / 3600;
    let mm = (day % 3600) / 60;
    let mut r = String::new();
    push_char(&mut r, crate::text::digit_char_exec(hh / 10));
    push_char(&mut r, crate::text::digit_char_exec(hh % 10));
    push_char(&mut r, ':');
    push_char(&mut r, crate::text::digit_char_exec(mm / 10));
    push_char(&mut r, crate::text::digit_char_exec(mm % 10));
    proof {
        reveal_strlit(":");
        assert(r@ =~= clock_text(now));
    }
    r
}

// ---------------------------------------------------------------------------
// The prefix key and the configuration
// ---------------------------------------------------------------------------

/// Whether `s` starts with `p`.
pub open spec fn starts_with(s: Seq<char>, p: Seq<char>) -> bool {
    p.len() <= s.len() && s.take(p.len() as int) == p
}

/// The ASCII lower-case form of a string.
pub open spec fn lowered(s: Seq<char>) -> Seq<char> {
    crate::text::lower(s)
}

/// The letter a prefix setting names: `C-b`, `ctrl-b` or `b`, case aside.
pub open spec fn prefix_key(spec: Seq<char>) -> Option<char> {
    let s = lowered(trim(spec));
    let rest = if starts_with(s, "c-"@) {
        s.skip(2)
    } else if starts_with(s, "ctrl-"@) {
        s.skip(5)
    } else {
        s
    };
    if rest.len() > 0 {
        Some(rest[0])
    } else {
        None
    }
}

fn starts_with_exec(s: &Vec<char>, p: &str) -> (r: bool)
    ensures
        r == starts_with(s@, p@),
{
    let pc = chars_of(p);
    if pc.len() > s.len() {
        return false;
    }
    let mut i: usize = 0;
    while i < pc.len()
        invariant
            i <= pc.len() <= s.len(),
            pc@ == p@,
            forall|j: int| 0 <= j < i ==> s@[j] == pc@[j],
        decreases pc.len() - i,
    {
        if s[i] != pc[i] {
            proof {
                assert(s@.take(pc.len() as int)[i as int] != p@[i as int]);
            }
            return false;
        }
        i = i + 1;
    }
    proof {
        assert(s@.take(pc.len() as int) =~= p@);
    }
    true
}

/// The letter a prefix setting names.
pub fn parse_prefix_key(spec: &str) -> (r: Option<char>)
    ensures
        r == prefix_key(spec@),
{
    let t = trim_exec(spec);
    let l = crate::text::to_lower(t.as_str());
    let cs = chars_of(l.as_str());
    let from: usize = if starts_with_exec(&cs, "c-") {
        proof {
            reveal_strlit("c-");
        }
        2
    } else if starts_with_exec(&cs, "ctrl-") {
        proof {
            reveal_strlit("ctrl-");
        }
        5
    } else {
        0
    };
    if from < cs.len() {
        Some(cs[from])
    } else {
        None
    }
}

/// The client's settings from the configuration files.
pub struct UiConfig {
    pub status_left: Option<String>,
    pub status_right: Option<String>,
    pub status_bg: Option<String>,
    pub status_fg: Option<String>,
    pub prefix_key: Option<String>,
}

/// What a `UiConfig` holds.
pub struct UiConfigView {
    pub status_left: Option<Seq<char>>,
    pub status_right: Option<Seq<char>>,
    pub status_bg: Option<Seq<char>>,
    pub status_fg: Option<Seq<char>>,
    pub prefix_key: Option<Seq<char>>,
}

impl View for UiConfig {
    type V = UiConfigView;

    open spec fn view(&self) -> UiConfigView {
        UiConfigView {
            status_left: self.status_left.deep_view(),
            status_right: self.status_right.deep_view(),
            status_bg: self.status_bg.deep_view(),
            status_fg: self.status_fg.deep_view(),
            prefix_key: self.prefix_key.deep_view(),
        }
    }
}

/// `s` without its leading and trailing double quotes.
pub open spec fn trim_quotes(s: Seq<char>) -> Seq<char> {
    let keep = |c: char| c != '"';
    match first_index(s, keep) {
        None => seq![],
        Some(a) => {
            let b = s.len() - 1 - first_index(s.reverse(), keep)->0;
            s.subrange(a, b + 1)
        },
    }
}

/// A configuration line as a setting: `set KEY VALUE`, `set-option KEY
/// VALUE` or `KEY VALUE`, the value trimmed and without quotes.
pub open spec fn setting_of(line: Seq<char>) -> Option<(Seq<char>, Seq<char>)> {
    let t = trim(line);
    if t.len() == 0 || t[0] == '#' {
        None
    } else {
        let rest = if starts_with(t, "set "@) {
            t.skip(4)
        } else if starts_with(t, "set-option "@) {
            t.skip(11)
        } else {
            t
        };
        match crate::text::split_once(rest, ' ') {
            None => None,
            Some((k, v)) => Some((trim(k), trim_quotes(trim(v)))),
        }
    }
}

/// The configuration after one setting; keys the client does not use are
/// ignored.
pub open spec fn apply_setting(c: UiConfigView, key: Seq<char>, value: Seq<char>) -> UiConfigView {
    if key == "status-left"@ {
        UiConfigView { status_left: Some(value), ..c }
    } else if key == "status-right"@ {
        UiConfigView { status_right: Some(value), ..c }
    } else if key == "status-bg"@ {
        UiConfigView { status_bg: Some(value), ..c }
    } else if key == "status-fg"@ {
        UiConfigView { status_fg: Some(value), ..c }
    } else if key == "prefix"@ {
        UiConfigView { prefix_key: Some(value), ..c }
    } else {
        c
    }
}

/// The configuration that some lines give, later lines winning.
pub open spec fn config_of(lines: Seq<Seq<char>>) -> UiConfigView
    decreases lines.len(),
{
    if lines.len() == 0 {
        UiConfigView { status_left: None, status_right: None, status_bg: None, status_fg: None, prefix_key: None }
    } else {
        let c = config_of(lines.drop_last());
        match setting_of(lines.last()) {
            None => c,
            Some((k, v)) => apply_setting(c, k, v),
        }
    }
}

fn trim_quotes_exec(s: &str) -> (r: String)
    ensures
        r@ == trim_quotes(s@),
{
    let keep = |c: char| c != '"';
    let chars = chars_of(s);
    let ghost cs = chars@;
    let n = chars.len();
    let mut a: usize = 0;
    while a < n && chars[a] == '"'
        invariant
            a <= n,
            n == chars.len(),
            cs == chars@,
            forall|j: int| 0 <= j < a ==> !(|c: char| c != '"')(#[trigger] cs[j]),
        decreases n - a,
    {
        a = a + 1;
    }
    if a == n {
        proof {
            lemma_first_index_none(cs, |c: char| c != '"');
        }
        return String::new();
    }
    proof {
        lemma_first_index_is(cs, |c: char| c != '"', a as int);
    }
    let mut b: usize = n;
    while b > a && chars[b - 1] == '"'
        invariant
            a < n,
            a < b <= n,
            n == chars.len(),
            cs == chars@,
            cs[a as int] != '"',
            forall|j: int| b <= j < n ==> !(|c: char| c != '"')(#[trigger] cs[j]),
        decreases b,
    {
        b = b - 1;
    }
    proof {
        let rv = cs.reverse();
        assert forall|j: int| 0 <= j < n - b implies !(|c: char| c != '"')(#[trigger] rv[j]) by {
            assert(rv[j] == cs[n - 1 - j]);
        }
        assert(rv[n - b] == cs[b - 1]);
        lemma_first_index_is(rv, |c: char| c != '"', n - b);
    }
    string_of_range(&chars, a, b)
}

fn setting_of_exec(line: &str) -> (r: Option<(String, String)>)
    ensures
        match (r, setting_of(line@)) {
            (Some((k, v)), Some((x, y))) => k@ == x && v@ == y,
            (None, None) => true,
            _ => false,
        },
{
    let t = trim_exec(line);
    let tc = chars_of(t.as_str());
    if tc.len() == 0 || tc[0] == '#' {
        return None;
    }
    let from: usize = if starts_with_exec(&tc, "set ") {
        proof {
            reveal_strlit("set ");
        }
        4
    } else if starts_with_exec(&tc, "set-option ") {
        proof {
            reveal_strlit("set-option ");
        }
        11
    } else {
        0
    };
    let rest = string_of_range(&tc, from, tc.len());
    proof {
        assert(rest@ =~= tc@.skip(from as int));
        if from == 0 {
            assert(tc@.skip(0) =~= tc@);
        }
    }
    match crate::text::split_once_exec(rest.as_str(), ' ') {
        None => None,
        Some((k, v)) => {
            let kt = trim_exec(k.as_str());
            let vt = trim_exec(v.as_str());
            Some((kt, trim_quotes_exec(vt.as_str())))
        },
    }
}

/// The client's settings from the contents of its configuration files.
pub fn parse_ui_config(contents: &str) -> (r: UiConfig)
    ensures
        r@ == config_of(crate::text::lines_of(contents@)),
{
    let ls = crate::text::split_lines(contents);
    let ghost lv = views_of(ls@);
    let mut cfg = UiConfig { status_left: None, status_right: None, status_bg: None, status_fg: None, prefix_key: None };
    let mut i: usize = 0;
    while i < ls.len()
        invariant
            i <= ls.len(),
            lv == views_of(ls@),
            lv == crate::text::lines_of(contents@),
            cfg@ == config_of(lv.take(i as int)),
        decreases ls.len() - i,
    {
        proof {
            assert(lv.take(i + 1).drop_last() =~= lv.take(i as int));
            assert(lv.take(i + 1).last() == ls@[i as int]@);
        }
        match setting_of_exec(ls[i].as_str()) {
            None => {},
            Some((k, v)) => {
                let kk = k.as_str();
                if str_eq(kk, "status-left") {
                    cfg.status_left = Some(v);
                } else if str_eq(kk, "status-right") {
                    cfg.status_right = Some(v);
                } else if str_eq(kk, "status-bg") {
                    cfg.status_bg = Some(v);
                } else if str_eq(kk, "status-fg") {
                    cfg.status_fg = Some(v);
                } else if str_eq(kk, "prefix") {
                    cfg.prefix_key = Some(v);
                }
            },
        }
        i = i + 1;
    }
    proof {
        assert(lv.take(i as int) =~= lv);
    }
    cfg
}
} // verus!
