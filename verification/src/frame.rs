//! One frame of the client's screen, as a list of drawing steps: the bars,
//! the panes of the shown window in their layout, floating panes and
//! popups, and where the cursor goes.
use vstd::prelude::*;
use crate::text::{
    chars_of, push_char, lit, append_str, views_of, decimal, push_decimal, u64_to_string,
    first_index, lemma_first_index_is, lemma_first_index_none, string_of, str_is_empty,
};
use crate::terminal::{Cell, Color, sat_sub, sat_add, min_of};
use crate::copy::CopyModeState;

verus! {

// ---------------------------------------------------------------------------
// Drawing steps
// ---------------------------------------------------------------------------

/// One drawing step of a frame.
pub enum DrawOp {
    /// A full-width bar at `row`: `text`, clipped and padded, in colours.
    Bar { row: usize, text: String, fg: Color, bg: Color },
    /// Plain text at `(col, row)`, clipped and padded to `width`.
    Text { row: usize, col: usize, width: usize, text: String },
    /// Styled cells at `(col, row)`, at most `width` of them, then padding.
    Cells { row: usize, col: usize, width: usize, cells: Vec<Cell> },
    /// A line of a popup box: white on dark blue.
    Boxed { row: usize, col: usize, width: usize, text: String },
    /// A split border.
    Border(crate::screen::Border),
}

/// What a `DrawOp` holds.
pub enum DrawOpView {
    Bar { row: usize, text: Seq<char>, fg: Color, bg: Color },
    Text { row: usize, col: usize, width: usize, text: Seq<char> },
    Cells { row: usize, col: usize, width: usize, cells: Seq<Cell> },
    Boxed { row: usize, col: usize, width: usize, text: Seq<char> },
    Border(crate::screen::Border),
}

impl View for DrawOp {
    type V = DrawOpView;

    open spec fn view(&self) -> DrawOpView {
        match self {
            DrawOp::Bar { row, text, fg, bg } => DrawOpView::Bar { row: *row, text: text@, fg: *fg, bg: *bg },
            DrawOp::Text { row, col, width, text } => DrawOpView::Text {
                row: *row,
                col: *col,
                width: *width,
                text: text@,
            },
            DrawOp::Cells { row, col, width, cells } => DrawOpView::Cells {
                row: *row,
                col: *col,
                width: *width,
                cells: cells@,
            },
            DrawOp::Boxed { row, col, width, text } => DrawOpView::Boxed {
                row: *row,
                col: *col,
                width: *width,
                text: text@,
            },
            DrawOp::Border(b) => DrawOpView::Border(*b),
        }
    }
}

/// The views of some drawing steps.
pub open spec fn ops_view(v: Seq<DrawOp>) -> Seq<DrawOpView> {
    v.map_values(|o: DrawOp| o@)
}

// ---------------------------------------------------------------------------
// Popup boxes
// ---------------------------------------------------------------------------

/// The length of the longest of some lines.
pub open spec fn longest(ls: Seq<Seq<char>>) -> nat
    decreases ls.len(),
{
    if ls.len() == 0 {
        0
    } else {
        let m = longest(ls.drop_last());
        if ls.last().len() > m {
            ls.last().len()
        } else {
            m
        }
    }
}

/// `n` copies of `c`.
pub open spec fn repeat(c: char, n: nat) -> Seq<char>
    decreases n,
{
    if n == 0 {
        seq![]
    } else {
        repeat(c, (n - 1) as nat).push(c)
    }
}

/// Where a popup box goes and how big it is: its first row and column,
/// its width and its height.
pub open spec fn box_geometry(cols: usize, rows: usize, title: Seq<char>, lines: Seq<Seq<char>>) -> (usize, usize, usize, usize) {
    let content = if longest(lines) >= title.len() + 4 {
        longest(lines) as int
    } else {
        (title.len() + 4) as int
    };
    let w0 = if content + 4 <= sat_sub(cols, 4) {
        content + 4
    } else {
        sat_sub(cols, 4) as int
    };
    let box_w = if w0 >= 20 {
        w0
    } else {
        20
    };
    let h0 = if lines.len() + 4 <= sat_sub(rows, 4) {
        (lines.len() + 4) as int
    } else {
        sat_sub(rows, 4) as int
    };
    let box_h = if h0 >= 5 {
        h0
    } else {
        5
    };
    (
        (sat_sub(rows, box_h as usize) / 2) as usize,
        (sat_sub(cols, box_w as usize) / 2) as usize,
        box_w as usize,
        box_h as usize,
    )
}

/// The top line of a popup box: its title in the border.
pub open spec fn box_top(title: Seq<char>, box_w: usize) -> Seq<char> {
    let inner = sat_sub(box_w, 2) as nat;
    let head = "┌─ "@ + title + " "@;
    (if head.len() >= inner {
        head.take(inner as int)
    } else {
        head + repeat('─', (inner - head.len()) as nat)
    }) + "┐"@
}

/// A body line of a popup box holding `line`, clipped to fit.
pub open spec fn box_body(line: Seq<char>, box_w: usize) -> Seq<char> {
    let room = (box_w - 4) as nat;
    let shown = if line.len() <= room {
        line
    } else {
        line.take(room as int)
    };
    "│ "@ + shown + repeat(' ', (box_w - 3 - shown.len()) as nat) + "│"@
}

/// An empty body line of a popup box.
pub open spec fn box_blank(box_w: usize) -> Seq<char> {
    "│"@ + repeat(' ', (box_w - 2) as nat) + "│"@
}

/// The bottom line of a popup box.
pub open spec fn box_bottom(box_w: usize) -> Seq<char> {
    "└"@ + repeat('─', (box_w - 2) as nat) + "┘"@
}

/// The body lines of a popup box from `i` on.
pub open spec fn box_rows(lines: Seq<Seq<char>>, row0: usize, col: usize, box_w: usize, inner_h: int, i: int) -> Seq<DrawOpView>
    decreases inner_h - i,
{
    if i < 0 || i >= inner_h {
        seq![]
    } else {
        seq![DrawOpView::Boxed {
            row: (row0 + 1 + i) as usize,
            col: col,
            width: box_w,
            text: if i < lines.len() {
                box_body(lines[i], box_w)
            } else {
                box_blank(box_w)
            },
        }] + box_rows(lines, row0, col, box_w, inner_h, i + 1)
    }
}

/// The drawing steps of a popup box in the middle of the screen.
pub open spec fn popup_box(cols: usize, rows: usize, title: Seq<char>, lines: Seq<Seq<char>>) -> Seq<DrawOpView> {
    let (row0, col, box_w, box_h) = box_geometry(cols, rows, title, lines);
    seq![DrawOpView::Boxed { row: row0, col: col, width: box_w, text: box_top(title, box_w) }] + box_rows(
        lines,
        row0,
        col,
        box_w,
        box_h - 2,
        0,
    ) + seq![DrawOpView::Boxed { row: (row0 + box_h - 1) as usize, col: col, width: box_w, text: box_bottom(box_w) }]
}

fn push_repeat(s: &mut String, c: char, n: usize)
    ensures
        final(s)@ == old(s)@ + repeat(c, n as nat),
{
    let mut i: usize = 0;
    while i < n
        invariant
            i <= n,
            s@ == old(s)@ + repeat(c, i as nat),
        decreases n - i,
    {
        push_char(s, c);
        proof {
            assert(s@ =~= old(s)@ + repeat(c, (i + 1) as nat));
        }
        i = i + 1;
    }
}

fn longest_exec(ls: &Vec<String>) -> (r: usize)
    ensures
        r == longest(views_of(ls@)),
{
    let ghost lv = views_of(ls@);
    let mut m: usize = 0;
    let mut i: usize = 0;
    while i < ls.len()
        invariant
            i <= ls.len(),
            lv == views_of(ls@),
            m == longest(lv.take(i as int)),
        decreases ls.len() - i,
    {
        let n = chars_of(ls[i].as_str()).len();
        proof {
            assert(lv.take(i + 1).drop_last() =~= lv.take(i as int));
            assert(lv.take(i + 1).last() == ls@[i as int]@);
        }
        if n > m {
            m = n;
        }
        i = i + 1;
    }
    proof {
        assert(lv.take(i as int) =~= lv);
    }
    m
}

/// The drawing steps of a popup box in the middle of the screen.
pub fn popup_box_exec(cols: usize, rows: usize, title: &str, lines: &Vec<String>) -> (r: Vec<DrawOp>)
    ensures
        ops_view(r@) == popup_box(cols, rows, title@, views_of(lines@)),
{
    let ghost lv = views_of(lines@);
    let tlen = chars_of(title).len();
    let longest = longest_exec(lines);
    let content: u128 = if (longest as u128) >= (tlen as u128) + 4 {
        longest as u128
    } else {
        (tlen as u128) + 4
    };
    let limit = cols.saturating_sub(4);
    let w0: usize = if content + 4 <= limit as u128 {
        (content + 4) as usize
    } else {
        limit
    };
    let box_w: usize = if w0 >= 20 {
        w0
    } else {
        20
    };
    let hlimit = rows.saturating_sub(4);
    let h0: usize = if (lines.len() as u128) + 4 <= hlimit as u128 {
        lines.len() + 4
    } else {
        hlimit
    };
    let box_h: usize = if h0 >= 5 {
        h0
    } else {
        5
    };
    let row0 = rows.saturating_sub(box_h) / 2;
    let col = cols.saturating_sub(box_w) / 2;
    proof {
        assert(box_geometry(cols, rows, title@, lv) == (row0, col, box_w, box_h));
    }
    let mut ops: Vec<DrawOp> = Vec::new();
    let inner = box_w - 2;
    let mut head = lit("┌─ ");
    append_str(&mut head, title);
    append_str(&mut head, " ");
    let hc = chars_of(head.as_str());
    let mut top = if hc.len() >= inner {
        crate::text::string_of_range(&hc, 0, inner)
    } else {
        let mut t = head.clone();
        push_repeat(&mut t, '─', inner - hc.len());
        t
    };
    append_str(&mut top, "┐");
    ops.push(DrawOp::Boxed { row: row0, col, width: box_w, text: top });
    proof {
        assert(ops_view(ops@) =~= seq![DrawOpView::Boxed { row: row0, col: col, width: box_w, text: box_top(title@, box_w) }]);
    }
    let inner_h = box_h - 2;
    proof {
        if rows >= box_h {
            assert(row0 <= rows - box_h);
        } else {
            assert(row0 == 0);
        }
    }
    let mut i: usize = 0;
    while i < inner_h
        invariant
            i <= inner_h,
            inner_h == box_h - 2,
            box_w >= 20,
            box_h >= 5,
            lv == views_of(lines@),
            row0 + box_h <= usize::MAX,
            ops_view(ops@) == seq![DrawOpView::Boxed { row: row0, col: col, width: box_w, text: box_top(title@, box_w) }]
                + box_rows(lv, row0, col, box_w, inner_h as int, 0).take(i as int),
        decreases inner_h - i,
    {
        let text = if i < lines.len() {
            let lc = chars_of(lines[i].as_str());
            let room = box_w - 4;
            let shown = if lc.len() <= room {
                lc.len()
            } else {
                room
            };
            let mut t = lit("│ ");
            let part = crate::text::string_of_range(&lc, 0, shown);
            append_str(&mut t, part.as_str());
            push_repeat(&mut t, ' ', box_w - 3 - shown);
            append_str(&mut t, "│");
            proof {
                assert(lc@ == lv[i as int]);
                if lc.len() <= room {
                    assert(part@ =~= lc@);
                }
            }
            t
        } else {
            let mut t = lit("│");
            push_repeat(&mut t, ' ', box_w - 2);
            append_str(&mut t, "│");
            t
        };
        let ghost before = ops_view(ops@);
        ops.push(DrawOp::Boxed { row: row0 + 1 + i, col, width: box_w, text });
        proof {
            lemma_box_rows_index(lv, row0, col, box_w, inner_h as int, 0, i as int);
            assert(ops_view(ops@) =~= before.push(box_rows(lv, row0, col, box_w, inner_h as int, 0)[i as int]));
            assert(box_rows(lv, row0, col, box_w, inner_h as int, 0).take(i + 1) =~= box_rows(
                lv,
                row0,
                col,
                box_w,
                inner_h as int,
                0,
            ).take(i as int).push(box_rows(lv, row0, col, box_w, inner_h as int, 0)[i as int]));
        }
        i = i + 1;
    }
    let mut bottom = lit("└");
    push_repeat(&mut bottom, '─', box_w - 2);
    append_str(&mut bottom, "┘");
    let ghost before = ops_view(ops@);
    ops.push(DrawOp::Boxed { row: row0 + box_h - 1, col, width: box_w, text: bottom });
    proof {
        lemma_box_rows_len(lv, row0, col, box_w, inner_h as int, 0);
        assert(box_rows(lv, row0, col, box_w, inner_h as int, 0).take(i as int) =~= box_rows(
            lv,
            row0,
            col,
            box_w,
            inner_h as int,
            0,
        ));
        assert(ops_view(ops@) =~= popup_box(cols, rows, title@, lv));
    }
    ops
}

proof fn lemma_box_rows_len(lines: Seq<Seq<char>>, row0: usize, col: usize, box_w: usize, inner_h: int, i: int)
    requires
        0 <= i <= inner_h,
    ensures
        box_rows(lines, row0, col, box_w, inner_h, i).len() == inner_h - i,
    decreases inner_h - i,
{
    if i < inner_h {
        lemma_box_rows_len(lines, row0, col, box_w, inner_h, i + 1);
    }
}

proof fn lemma_box_rows_index(lines: Seq<Seq<char>>, row0: usize, col: usize, box_w: usize, inner_h: int, i: int, k: int)
    requires
        0 <= i <= k < inner_h,
    ensures
        box_rows(lines, row0, col, box_w, inner_h, i).len() == inner_h - i,
        box_rows(lines, row0, col, box_w, inner_h, i)[k - i] == (DrawOpView::Boxed {
            row: (row0 + 1 + k) as usize,
            col: col,
            width: box_w,
            text: if k < lines.len() {
                box_body(lines[k], box_w)
            } else {
                box_blank(box_w)
            },
        }),
    decreases inner_h - i,
{
    lemma_box_rows_len(lines, row0, col, box_w, inner_h, i);
    if i < k {
        lemma_box_rows_index(lines, row0, col, box_w, inner_h, i + 1, k);
    }
}


// ---------------------------------------------------------------------------
// The bars
// ---------------------------------------------------------------------------

/// The help text of the top bar.
pub open spec fn top_bar_text() -> Seq<char> {
    "dmux ui | Ctrl-b prefix | c new-window | \" split | % split | n/p window | o next-pane | ; last-pane | d detach | q quit | m meta | : command | PgUp/PgDn scroll"@
}

/// `ON` or `off`.
pub open spec fn on_off(b: bool) -> Seq<char> {
    if b {
        "ON"@
    } else {
        "off"@
    }
}

/// The active pane as `session:window.id`, or `<none>`.
pub open spec fn active_label(s: crate::ui::SnapshotView) -> Seq<char> {
    match crate::ui::active_pane(s) {
        Some(k) => s.panes[k].session_name + ":"@ + s.panes[k].window_name + "."@ + decimal(s.panes[k].pane_id as nat),
        None => "<none>"@,
    }
}

/// The head of the status line: session, active pane, prefix and panel.
pub open spec fn status_head(s: crate::ui::SnapshotView, u: crate::client::UiView) -> Seq<char> {
    let sess = match s.attached {
        Some(a) => a,
        None => "<none>"@,
    };
    "session="@ + sess + " pane="@ + active_label(s) + " prefix="@ + on_off(u.prefix) + " meta="@ + on_off(u.show_meta)
}

/// The status line: copy mode's cursor, the command being typed, the
/// notice, scrolling, or a hint.
pub open spec fn status_line(s: crate::ui::SnapshotView, u: crate::client::UiView) -> Seq<char> {
    match u.copy_mode {
        Some(c) => "COPY row="@ + decimal(c.cursor_row as nat) + " col="@ + decimal(c.cursor_col as nat) + " anchor="@
            + (match c.anchor {
            Some(a) => decimal(a.0 as nat) + ":"@ + decimal(a.1 as nat),
            None => "none"@,
        }) + " scroll="@ + decimal(u.scroll_offset as nat) + " (v select, Enter yank, Esc exit)"@,
        None => match u.command_mode {
            Some(i) => ":"@ + i,
            None => match u.notice {
                Some(m) => status_head(s, u) + " scroll="@ + decimal(u.scroll_offset as nat) + " | "@ + m,
                None => if u.scroll_mode || u.scroll_offset > 0 {
                    status_head(s, u) + " | SCROLL offset="@ + decimal(u.scroll_offset as nat)
                        + " (PgUp/PgDn/Home/End/Esc)"@
                } else {
                    status_head(s, u) + " (typing goes to active pane)"@
                },
            },
        },
    }
}

/// The colour of the status line.
pub open spec fn status_color(u: crate::client::UiView) -> Color {
    if u.copy_mode is Some {
        Color::DarkYellow
    } else if u.prefix {
        Color::DarkBlue
    } else if u.scroll_mode || u.scroll_offset > 0 {
        Color::DarkMagenta
    } else {
        Color::DarkGrey
    }
}

fn push_on_off(t: &mut String, b: bool)
    ensures
        final(t)@ == old(t)@ + on_off(b),
{
    if b {
        append_str(t, "ON");
    } else {
        append_str(t, "off");
    }
}

fn active_label_exec(s: &crate::ui::UiSnapshot) -> (r: String)
    ensures
        r@ == active_label(s@),
{
    match crate::ui::active_pane_index(s) {
        Some(k) => {
            proof {
                assert(s@.panes[k as int] == s.panes@[k as int]@);
            }
            let mut t = s.panes[k].session_name.clone();
            append_str(&mut t, ":");
            append_str(&mut t, s.panes[k].window_name.as_str());
            append_str(&mut t, ".");
            push_decimal(&mut t, s.panes[k].pane_id);
            t
        },
        None => lit("<none>"),
    }
}

fn status_head_exec(s: &crate::ui::UiSnapshot, u: &crate::client::UiState) -> (r: String)
    ensures
        r@ == status_head(s@, u@),
{
    let mut t = lit("session=");
    match &s.attached_session {
        Some(a) => append_str(&mut t, a.as_str()),
        None => append_str(&mut t, "<none>"),
    }
    append_str(&mut t, " pane=");
    let l = active_label_exec(s);
    append_str(&mut t, l.as_str());
    append_str(&mut t, " prefix=");
    push_on_off(&mut t, u.prefix);
    append_str(&mut t, " meta=");
    push_on_off(&mut t, u.show_meta);
    t
}

/// The status line.
pub fn status_line_exec(s: &crate::ui::UiSnapshot, u: &crate::client::UiState) -> (r: String)
    ensures
        r@ == status_line(s@, u@),
{
    match u.copy_mode {
        Some(c) => {
            let mut t = lit("COPY row=");
            push_decimal(&mut t, c.cursor_row as u64);
            append_str(&mut t, " col=");
            push_decimal(&mut t, c.cursor_col as u64);
            append_str(&mut t, " anchor=");
            match c.anchor {
                Some(a) => {
                    push_decimal(&mut t, a.0 as u64);
                    append_str(&mut t, ":");
                    push_decimal(&mut t, a.1 as u64);
                },
                None => append_str(&mut t, "none"),
            }
            append_str(&mut t, " scroll=");
            push_decimal(&mut t, u.scroll_offset as u64);
            append_str(&mut t, " (v select, Enter yank, Esc exit)");
            t
        },
        None => match &u.command_mode {
            Some(i) => {
                let mut t = lit(":");
                append_str(&mut t, i.as_str());
                t
            },
            None => match &u.notice {
                Some(m) => {
                    let mut t = status_head_exec(s, u);
                    append_str(&mut t, " scroll=");
                    push_decimal(&mut t, u.scroll_offset as u64);
                    append_str(&mut t, " | ");
                    append_str(&mut t, m.as_str());
                    t
                },
                None => {
                    let mut t = status_head_exec(s, u);
                    if u.scroll_mode || u.scroll_offset > 0 {
                        append_str(&mut t, " | SCROLL offset=");
                        push_decimal(&mut t, u.scroll_offset as u64);
                        append_str(&mut t, " (PgUp/PgDn/Home/End/Esc)");
                    } else {
                        append_str(&mut t, " (typing goes to active pane)");
                    }
                    t
                },
            },
        },
    }
}

/// The status line's colour.
pub fn status_color_exec(u: &crate::client::UiState) -> (r: Color)
    ensures
        r == status_color(u@),
{
    if u.copy_mode.is_some() {
        Color::DarkYellow
    } else if u.prefix {
        Color::DarkBlue
    } else if u.scroll_mode || u.scroll_offset > 0 {
        Color::DarkMagenta
    } else {
        Color::DarkGrey
    }
}

/// What the status templates are filled in with besides the snapshot: the
/// host name, the time, and what each template's commands printed.
pub struct StatusFill {
    pub host: String,
    pub clock: String,
    pub left_outputs: Vec<Option<String>>,
    pub right_outputs: Vec<Option<String>>,
}

/// The name of the first active window, or nothing.
pub open spec fn first_active_window_name(s: crate::ui::SnapshotView) -> Seq<char> {
    match first_index(s.windows, crate::ui::any_active()) {
        Some(i) => s.windows[i].window_name,
        None => seq![],
    }
}

/// The id of the first active pane, or nothing.
pub open spec fn first_active_pane_id(s: crate::ui::SnapshotView) -> Seq<char> {
    match first_index(s.panes, |p: crate::proto::PaneInfoView| p.active) {
        Some(k) => decimal(s.panes[k].pane_id as nat),
        None => seq![],
    }
}

/// The values the status templates are filled in with.
pub open spec fn status_values(
    s: crate::ui::SnapshotView,
    host: Seq<char>,
    clock: Seq<char>,
    outs: Seq<Option<Seq<char>>>,
) -> crate::bars::StatusValues {
    crate::bars::StatusValues {
        session: match s.attached {
            Some(a) => a,
            None => "-"@,
        },
        window: first_active_window_name(s),
        pane: first_active_pane_id(s),
        host: host,
        clock: clock,
        outputs: outs,
    }
}

/// The bottom bar: the status templates around the window and pane bar,
/// the right one pushed to the right edge.
pub open spec fn bar_text(left: Option<Seq<char>>, right: Option<Seq<char>>, bar: Seq<char>, cols: usize) -> Seq<char> {
    match (left, right) {
        (Some(l), Some(r)) => {
            let used = l.len() + r.len() + bar.len();
            let pad = if cols >= used {
                cols - used
            } else {
                0
            };
            l + " "@ + bar + repeat(' ', pad as nat) + r
        },
        (Some(l), None) => l + " "@ + bar,
        (None, Some(r)) => bar + " "@ + r,
        (None, None) => bar,
    }
}

/// The outputs of a template's commands.
pub open spec fn outputs_view(v: Seq<Option<String>>) -> Seq<Option<Seq<char>>> {
    v.map_values(|o: Option<String>| o.deep_view())
}

/// The bottom bar of a frame.
pub open spec fn bottom_bar(s: crate::ui::SnapshotView, cfg: crate::bars::UiConfigView, host: Seq<char>, clock: Seq<char>, lo: Seq<Option<Seq<char>>>, ro: Seq<Option<Seq<char>>>, cols: usize) -> Seq<char> {
    let left = match cfg.status_left {
        Some(t) => Some(crate::bars::subst_from(t, 0, status_values(s, host, clock, lo), 0)),
        None => None,
    };
    let right = match cfg.status_right {
        Some(t) => Some(crate::bars::subst_from(t, 0, status_values(s, host, clock, ro), 0)),
        None => None,
    };
    bar_text(left, right, crate::bars::window_pane_bar(s), cols)
}

/// A configured colour, or the default.
pub open spec fn color_or(name: Option<Seq<char>>, d: Color) -> Color {
    match name {
        Some(n) => match crate::terminal::color_named(n) {
            Some(c) => c,
            None => d,
        },
        None => d,
    }
}

// ---------------------------------------------------------------------------
// The panes
// ---------------------------------------------------------------------------

/// The characters of some cells.
pub open spec fn cells_text(l: Seq<Cell>) -> Seq<char>
    decreases l.len(),
{
    if l.len() == 0 {
        seq![]
    } else {
        cells_text(l.drop_last()).push(l.last().ch)
    }
}

/// The drawing steps of a pane's area from row `idx` on: its lines (under
/// copy mode as marked text), blank rows after them.
pub open spec fn region(
    row0: usize,
    height: usize,
    col: usize,
    width: usize,
    lines: Seq<Seq<Cell>>,
    copy: Option<CopyModeState>,
    idx: int,
) -> Seq<DrawOpView>
    decreases height - idx,
{
    if idx < 0 || idx >= height {
        seq![]
    } else {
        seq![
            if idx < lines.len() {
                match copy {
                    Some(c) => DrawOpView::Text {
                        row: sat_add(row0, idx as usize),
                        col: col,
                        width: width,
                        text: crate::copy::overlay_line(cells_text(lines[idx]), idx as usize, c),
                    },
                    None => DrawOpView::Cells { row: sat_add(row0, idx as usize), col: col, width: width, cells: lines[idx] },
                }
            } else {
                DrawOpView::Text { row: sat_add(row0, idx as usize), col: col, width: width, text: seq![] }
            },
        ] + region(row0, height, col, width, lines, copy, idx + 1)
    }
}

/// What a pane shows in an area `width` by `height`: its replayed output,
/// scrolled when it is the active pane, or its placeholder.
pub open spec fn pane_view(p: crate::proto::PaneInfoView, width: usize, height: usize, scroll: usize) -> (
    Seq<Seq<Cell>>,
    Option<(usize, usize)>,
) {
    match p.last_output {
        Some(raw) => if raw.len() > 0 {
            crate::terminal::rendered_pane(raw, width, height, if p.active {
                scroll
            } else {
                0
            })
        } else {
            (seq![crate::terminal::placeholder(p.last_input, p.last_output)], None)
        },
        None => (seq![crate::terminal::placeholder(p.last_input, p.last_output)], None),
    }
}

/// Drawing steps so far, the cursor of the active pane, and the lines it
/// shows.
pub struct Paint {
    pub ops: Seq<DrawOpView>,
    pub cursor: Option<(usize, usize)>,
    pub active: Seq<Seq<Cell>>,
}

/// A pane drawn at `(x, y)`, `width` by `height`.
pub open spec fn paint_pane(
    acc: Paint,
    p: crate::proto::PaneInfoView,
    x: usize,
    y: usize,
    width: usize,
    height: usize,
    scroll: usize,
    copy: Option<CopyModeState>,
) -> Paint {
    let (ls, cur) = pane_view(p, width, height, scroll);
    Paint {
        ops: acc.ops + region(y, height, x, width, ls, if p.active {
            copy
        } else {
            None
        }, 0),
        cursor: match cur {
            Some((cy, cx)) => if p.active {
                Some((sat_add(x, cx), sat_add(y, cy)))
            } else {
                acc.cursor
            },
            None => acc.cursor,
        },
        active: if p.active {
            ls
        } else {
            acc.active
        },
    }
}

/// Blank rows `from..to` at column `col`, `width` wide.
pub open spec fn blank_rows(from: usize, to: usize, col: usize, width: usize) -> Seq<DrawOpView>
    decreases to - from,
{
    if from >= to {
        seq![]
    } else {
        seq![DrawOpView::Text { row: from, col: col, width: width, text: seq![] }] + blank_rows(
            (from + 1) as usize,
            to,
            col,
            width,
        )
    }
}

/// The panes of a split tree drawn rectangle by rectangle from `k` on.
pub open spec fn paint_rects(
    rects: Seq<crate::screen::PaneRect>,
    panes: Seq<crate::proto::PaneInfoView>,
    scroll: usize,
    copy: Option<CopyModeState>,
    k: int,
    acc: Paint,
) -> Paint
    decreases rects.len() - k,
{
    if k < 0 || k >= rects.len() {
        acc
    } else {
        let r = rects[k];
        let next = match first_index(panes, |p: crate::proto::PaneInfoView| p.pane_id == r.pane_id) {
            None => acc,
            Some(i) => if r.width == 0 || r.height == 0 {
                acc
            } else {
                paint_pane(acc, panes[i], r.x, r.y, r.width, r.height, scroll, copy)
            },
        };
        paint_rects(rects, panes, scroll, copy, k + 1, next)
    }
}

/// The panes of a window side by side from `k` on, the next pane's column
/// being `col`.
pub open spec fn paint_columns(
    panes: Seq<crate::proto::PaneInfoView>,
    widths: Seq<int>,
    row0: usize,
    height: usize,
    scroll: usize,
    copy: Option<CopyModeState>,
    k: int,
    col: usize,
    acc: Paint,
) -> (Paint, usize)
    decreases panes.len() - k,
{
    if k < 0 || k >= panes.len() {
        (acc, col)
    } else {
        let w = if k < widths.len() && 0 <= widths[k] <= usize::MAX {
            widths[k] as usize
        } else {
            0
        };
        if w == 0 {
            paint_columns(panes, widths, row0, height, scroll, copy, k + 1, col, acc)
        } else {
            paint_columns(
                panes,
                widths,
                row0,
                height,
                scroll,
                copy,
                k + 1,
                sat_add(col, w),
                paint_pane(acc, panes[k], col, row0, w, height, scroll, copy),
            )
        }
    }
}

/// The header row of a stacked pane.
pub open spec fn pane_header(p: crate::proto::PaneInfoView) -> Seq<char> {
    "── pane "@ + decimal(p.pane_id as nat) + (if p.active {
        "*"@
    } else {
        ""@
    }) + " ("@ + p.pane_title + ") ─"@
}

/// The panes of a window stacked from `k` on, the next pane's first row
/// being `row`; with several panes each has a header row.
pub open spec fn paint_rows(
    panes: Seq<crate::proto::PaneInfoView>,
    heights: Seq<int>,
    headers: bool,
    cols: usize,
    scroll: usize,
    copy: Option<CopyModeState>,
    k: int,
    row: usize,
    acc: Paint,
) -> (Paint, usize)
    decreases panes.len() - k,
{
    if k < 0 || k >= panes.len() {
        (acc, row)
    } else {
        let h = if k < heights.len() && 0 <= heights[k] <= usize::MAX {
            heights[k] as usize
        } else {
            0
        };
        if h == 0 {
            paint_rows(panes, heights, headers, cols, scroll, copy, k + 1, row, acc)
        } else {
            let p = panes[k];
            let (acc1, row1) = if headers {
                (
                    Paint {
                        ops: acc.ops + seq![DrawOpView::Bar {
                            row: row,
                            text: pane_header(p),
                            fg: if p.active {
                                Color::Black
                            } else {
                                Color::White
                            },
                            bg: if p.active {
                                Color::DarkGreen
                            } else {
                                Color::DarkGrey
                            },
                        }],
                        ..acc
                    },
                    sat_add(row, 1),
                )
            } else {
                (acc, row)
            };
            paint_rows(
                panes,
                heights,
                headers,
                cols,
                scroll,
                copy,
                k + 1,
                sat_add(row1, h),
                paint_pane(acc1, p, 0, row1, cols, h, scroll, copy),
            )
        }
    }
}

/// The panes of the shown window, in ascending order of id.
pub open spec fn shown_panes(s: crate::ui::SnapshotView) -> Seq<crate::proto::PaneInfoView> {
    match crate::ui::active_window(s) {
        None => seq![],
        Some(i) => {
            let ps = crate::ui::window_panes(s, s.windows[i].session_name, s.windows[i].window_name);
            crate::ui::key_order(ps.map_values(|p: crate::proto::PaneInfoView| p.pane_id)).map_values(|k: int| ps[k])
        },
    }
}

/// The text of the placeholder of an empty window.
pub open spec fn ready_text() -> Seq<char> {
    "<shell ready: start typing in this window>"@
}

/// The panes of the shown window drawn in the content area from row
/// `row0`, `height` rows high: by its split tree where it has one, else
/// side by side or stacked as its layout says.
pub open spec fn paint_area(
    s: crate::ui::SnapshotView,
    u: crate::client::UiView,
    cols: usize,
    row0: usize,
    height: usize,
) -> Paint {
    let panes = shown_panes(s);
    let empty = Paint { ops: seq![], cursor: None, active: seq![] };
    if panes.len() == 0 {
        let ls = seq![crate::terminal::plain_cells(ready_text())];
        Paint { ops: region(row0, height, 0, cols, ls, u.copy_mode, 0), cursor: None, active: ls }
    } else {
        let w = s.windows[crate::ui::active_window(s)->0];
        match w.layout_tree {
            Some(tree) => {
                let rects = crate::screen::split_rects(tree, 0, row0, cols, height);
                let base = Paint {
                    ops: blank_rows(row0, sat_add(row0, height), 0, cols) + crate::screen::split_borders(
                        tree,
                        0,
                        row0,
                        cols,
                        height,
                    ).map_values(|b: crate::screen::Border| DrawOpView::Border(b)),
                    ..empty
                };
                paint_rects(rects, panes, u.scroll_offset, u.copy_mode, 0, base)
            },
            None => match w.layout {
                crate::proto::SplitOrientation::Vertical => {
                    let widths = crate::screen::slots(
                        panes.map_values(|p: crate::proto::PaneInfoView| p.cols as usize),
                        cols,
                        10,
                    );
                    let (acc, col) = paint_columns(panes, widths, row0, height, u.scroll_offset, u.copy_mode, 0, 0, empty);
                    if col < cols {
                        Paint { ops: acc.ops + blank_rows(row0, sat_add(row0, height), col, (cols - col) as usize), ..acc }
                    } else {
                        acc
                    }
                },
                crate::proto::SplitOrientation::Horizontal => {
                    let n = panes.len();
                    let headers = n > 1;
                    let total = if headers {
                        let t = sat_sub(height, n as usize);
                        if t >= n {
                            t
                        } else {
                            n as usize
                        }
                    } else {
                        if height >= 1 {
                            height
                        } else {
                            1
                        }
                    };
                    let heights = crate::screen::slots(
                        panes.map_values(|p: crate::proto::PaneInfoView| p.rows as usize),
                        total,
                        1,
                    );
                    let (acc, row) = paint_rows(panes, heights, headers, cols, u.scroll_offset, u.copy_mode, 0, row0, empty);
                    Paint { ops: acc.ops + blank_rows(row, sat_add(row0, height), 0, cols), ..acc }
                },
            },
        }
    }
}

/// Drawing steps so far, the cursor of the active pane and the lines it
/// shows.
pub struct PaintState {
    pub ops: Vec<DrawOp>,
    pub cursor: Option<(usize, usize)>,
    pub active: Vec<Vec<Cell>>,
}

impl View for PaintState {
    type V = Paint;

    open spec fn view(&self) -> Paint {
        Paint { ops: ops_view(self.ops@), cursor: self.cursor, active: crate::terminal::grid(self.active@) }
    }
}

/// The characters of some cells.
pub fn cells_text_exec(l: &Vec<Cell>) -> (r: String)
    ensures
        r@ == cells_text(l@),
{
    let mut t = String::new();
    let mut i: usize = 0;
    while i < l.len()
        invariant
            i <= l.len(),
            t@ == cells_text(l@.take(i as int)),
        decreases l.len() - i,
    {
        push_char(&mut t, l[i].ch);
        proof {
            assert(l@.take(i + 1).drop_last() =~= l@.take(i as int));
        }
        i = i + 1;
    }
    proof {
        assert(l@.take(i as int) =~= l@);
    }
    t
}

proof fn lemma_region(
    row0: usize,
    height: usize,
    col: usize,
    width: usize,
    lines: Seq<Seq<Cell>>,
    copy: Option<CopyModeState>,
    i: int,
    k: int,
)
    requires
        0 <= i <= k <= height,
    ensures
        region(row0, height, col, width, lines, copy, i).len() == height - i,
        k < height ==> region(row0, height, col, width, lines, copy, i)[k - i] == region(
            row0,
            height,
            col,
            width,
            lines,
            copy,
            k,
        )[0],
    decreases height - i,
{
    if i < height {
        lemma_region(row0, height, col, width, lines, copy, i + 1, if k > i {
            k
        } else {
            i + 1
        });
    }
}

fn copy_cells(v: &Vec<Cell>) -> (r: Vec<Cell>)
    ensures
        r@ == v@,
{
    let mut out: Vec<Cell> = Vec::new();
    let mut i: usize = 0;
    while i < v.len()
        invariant
            i <= v.len(),
            out@ == v@.take(i as int),
        decreases v.len() - i,
    {
        out.push(v[i]);
        proof {
            assert(out@ =~= v@.take(i + 1));
        }
        i = i + 1;
    }
    proof {
        assert(v@.take(i as int) =~= v@);
    }
    out
}

fn push_region(
    ops: &mut Vec<DrawOp>,
    row0: usize,
    height: usize,
    col: usize,
    width: usize,
    lines: &Vec<Vec<Cell>>,
    copy: Option<CopyModeState>,
)
    ensures
        ops_view(final(ops)@) == ops_view(old(ops)@) + region(
            row0,
            height,
            col,
            width,
            crate::terminal::grid(lines@),
            copy,
            0,
        ),
{
    let ghost g = crate::terminal::grid(lines@);
    let ghost start = ops_view(ops@);
    let ghost all = region(row0, height, col, width, g, copy, 0);
    proof {
        lemma_region(row0, height, col, width, g, copy, 0, 0);
    }
    let mut idx: usize = 0;
    while idx < height
        invariant
            idx <= height,
            g == crate::terminal::grid(lines@),
            all == region(row0, height, col, width, g, copy, 0),
            all.len() == height,
            ops_view(ops@) == start + all.take(idx as int),
        decreases height - idx,
    {
        let row = row0.saturating_add(idx);
        let op = if idx < lines.len() {
            match copy {
                Some(c) => {
                    let t = cells_text_exec(&lines[idx]);
                    let o = crate::copy::render_copy_overlay_line(t.as_str(), idx, &c);
                    DrawOp::Text { row, col, width, text: o }
                },
                None => DrawOp::Cells { row, col, width, cells: copy_cells(&lines[idx]) },
            }
        } else {
            DrawOp::Text { row, col, width, text: String::new() }
        };
        let ghost before = ops_view(ops@);
        ops.push(op);
        proof {
            lemma_region(row0, height, col, width, g, copy, 0, idx as int);
            assert(g[idx as int] == lines@[idx as int]@ || idx >= lines.len());
            assert(ops_view(ops@) =~= before.push(all[idx as int]));
            assert(all.take(idx + 1) =~= all.take(idx as int).push(all[idx as int]));
        }
        idx = idx + 1;
    }
    proof {
        assert(all.take(idx as int) =~= all);
    }
}

fn pane_view_exec(p: &crate::proto::PaneInfo, width: usize, height: usize, scroll: usize) -> (r: (
    Vec<Vec<Cell>>,
    Option<(usize, usize)>,
))
    ensures
        (crate::terminal::grid(r.0@), r.1) == pane_view(p@, width, height, scroll),
{
    match &p.last_output {
        Some(raw) => {
            if !str_is_empty(raw.as_str()) {
                let rp = crate::terminal::render_terminal_styled(raw.as_str(), width, height, if p.active {
                    scroll
                } else {
                    0
                });
                return (rp.lines, rp.cursor);
            }
        },
        None => {},
    }
    let mut v: Vec<Vec<Cell>> = Vec::new();
    v.push(crate::terminal::pane_placeholder_line(p));
    proof {
        assert(crate::terminal::grid(v@) =~= seq![crate::terminal::placeholder(p@.last_input, p@.last_output)]);
    }
    (v, None)
}

impl PaintState {
    fn paint_pane(
        &mut self,
        p: &crate::proto::PaneInfo,
        x: usize,
        y: usize,
        width: usize,
        height: usize,
        scroll: usize,
        copy: Option<CopyModeState>,
    )
        ensures
            final(self)@ == paint_pane(old(self)@, p@, x, y, width, height, scroll, copy),
    {
        let (ls, cur) = pane_view_exec(p, width, height, scroll);
        push_region(&mut self.ops, y, height, x, width, &ls, if p.active {
            copy
        } else {
            None
        });
        match cur {
            Some((cy, cx)) => {
                if p.active {
                    self.cursor = Some((x.saturating_add(cx), y.saturating_add(cy)));
                }
            },
            None => {},
        }
        if p.active {
            self.active = ls;
        }
    }

    fn blank_rows(&mut self, from: usize, to: usize, col: usize, width: usize)
        ensures
            final(self)@ == (Paint { ops: old(self)@.ops + blank_rows(from, to, col, width), ..old(self)@ }),
    {
        let mut r = from;
        while r < to
            invariant
                from <= r,
                r <= to || from >= to,
                self@.cursor == old(self)@.cursor,
                self@.active == old(self)@.active,
                self@.ops + blank_rows(r, to, col, width) == old(self)@.ops + blank_rows(from, to, col, width),
            decreases to - r,
        {
            let ghost before = self@.ops;
            self.ops.push(DrawOp::Text { row: r, col, width, text: String::new() });
            proof {
                assert(self@.ops =~= before.push(DrawOpView::Text { row: r, col: col, width: width, text: seq![] }));
                assert(before + blank_rows(r, to, col, width) =~= self@.ops + blank_rows((r + 1) as usize, to, col, width));
            }
            r = r + 1;
        }
        proof {
            assert(blank_rows(r, to, col, width) =~= Seq::<DrawOpView>::empty());
            assert(self@.ops + Seq::<DrawOpView>::empty() =~= self@.ops);
        }
    }
}

/// The panes of the shown window, as positions in the snapshot, in
/// ascending order of id.
fn shown_pane_indices(s: &crate::ui::UiSnapshot) -> (r: Vec<usize>)
    ensures
        r@.map_values(|k: usize| s@.panes[k as int]) == shown_panes(s@),
        forall|j: int| 0 <= j < r@.len() ==> #[trigger] r@[j] < s.panes.len(),
{
    match crate::ui::active_window_index(s) {
        None => {
            let v: Vec<usize> = Vec::new();
            proof {
                assert(v@.map_values(|k: usize| s@.panes[k as int]) =~= Seq::<crate::proto::PaneInfoView>::empty());
            }
            v
        },
        Some(i) => {
            proof {
                assert(s@.windows[i as int] == s.windows@[i as int]@);
            }
            crate::bars::sorted_window_panes(s, s.windows[i].session_name.as_str(), s.windows[i].window_name.as_str())
        },
    }
}

fn find_shown(s: &crate::ui::UiSnapshot, idx: &Vec<usize>, id: u64) -> (r: Option<usize>)
    requires
        forall|j: int| 0 <= j < idx@.len() ==> #[trigger] idx@[j] < s.panes.len(),
    ensures
        ({
            let ps = idx@.map_values(|k: usize| s@.panes[k as int]);
            match r {
                Some(j) => j < idx.len() && first_index(ps, |p: crate::proto::PaneInfoView| p.pane_id == id) == Some(j as int),
                None => first_index(ps, |p: crate::proto::PaneInfoView| p.pane_id == id) is None,
            }
        }),
{
    let ghost ps = idx@.map_values(|k: usize| s@.panes[k as int]);
    let ghost pred = |p: crate::proto::PaneInfoView| p.pane_id == id;
    let mut j: usize = 0;
    while j < idx.len()
        invariant
            j <= idx.len(),
            ps == idx@.map_values(|k: usize| s@.panes[k as int]),
            pred == (|p: crate::proto::PaneInfoView| p.pane_id == id),
            forall|m: int| 0 <= m < idx@.len() ==> #[trigger] idx@[m] < s.panes.len(),
            forall|m: int| 0 <= m < j ==> !pred(#[trigger] ps[m]),
        decreases idx.len() - j,
    {
        proof {
            assert(ps[j as int] == s@.panes[idx@[j as int] as int]);
            assert(s@.panes[idx@[j as int] as int] == s.panes@[idx@[j as int] as int]@);
        }
        if s.panes[idx[j]].pane_id == id {
            proof {
                lemma_first_index_is(ps, pred, j as int);
            }
            return Some(j);
        }
        j = j + 1;
    }
    proof {
        lemma_first_index_none(ps, pred);
    }
    None
}

impl PaintState {
    fn paint_rects(
        &mut self,
        s: &crate::ui::UiSnapshot,
        idx: &Vec<usize>,
        rects: &Vec<crate::screen::PaneRect>,
        scroll: usize,
        copy: Option<CopyModeState>,
    )
        requires
            forall|j: int| 0 <= j < idx@.len() ==> #[trigger] idx@[j] < s.panes.len(),
        ensures
            final(self)@ == paint_rects(rects@, idx@.map_values(|k: usize| s@.panes[k as int]), scroll, copy, 0, old(self)@),
    {
        let ghost ps = idx@.map_values(|k: usize| s@.panes[k as int]);
        let ghost target = paint_rects(rects@, ps, scroll, copy, 0, self@);
        let mut k: usize = 0;
        while k < rects.len()
            invariant
                k <= rects.len(),
                ps == idx@.map_values(|m: usize| s@.panes[m as int]),
                forall|j: int| 0 <= j < idx@.len() ==> #[trigger] idx@[j] < s.panes.len(),
                paint_rects(rects@, ps, scroll, copy, k as int, self@) == target,
            decreases rects.len() - k,
        {
            let r = rects[k];
            match find_shown(s, idx, r.pane_id) {
                None => {},
                Some(j) => {
                    if !(r.width == 0 || r.height == 0) {
                        proof {
                            assert(ps[j as int] == s@.panes[idx@[j as int] as int]);
                            assert(s@.panes[idx@[j as int] as int] == s.panes@[idx@[j as int] as int]@);
                        }
                        self.paint_pane(&s.panes[idx[j]], r.x, r.y, r.width, r.height, scroll, copy);
                    }
                },
            }
            k = k + 1;
        }
    }

    fn paint_columns(
        &mut self,
        s: &crate::ui::UiSnapshot,
        idx: &Vec<usize>,
        widths: &Vec<usize>,
        row0: usize,
        height: usize,
        scroll: usize,
        copy: Option<CopyModeState>,
    ) -> (col: usize)
        requires
            forall|j: int| 0 <= j < idx@.len() ==> #[trigger] idx@[j] < s.panes.len(),
        ensures
            (final(self)@, col) == paint_columns(
                idx@.map_values(|k: usize| s@.panes[k as int]),
                widths@.map_values(|w: usize| w as int),
                row0,
                height,
                scroll,
                copy,
                0,
                0,
                old(self)@,
            ),
    {
        let ghost ps = idx@.map_values(|k: usize| s@.panes[k as int]);
        let ghost ws = widths@.map_values(|w: usize| w as int);
        let ghost target = paint_columns(ps, ws, row0, height, scroll, copy, 0, 0, self@);
        let mut col: usize = 0;
        let mut k: usize = 0;
        while k < idx.len()
            invariant
                k <= idx.len(),
                ps == idx@.map_values(|m: usize| s@.panes[m as int]),
                ws == widths@.map_values(|w: usize| w as int),
                forall|j: int| 0 <= j < idx@.len() ==> #[trigger] idx@[j] < s.panes.len(),
                paint_columns(ps, ws, row0, height, scroll, copy, k as int, col, self@) == target,
            decreases idx.len() - k,
        {
            let w = if k < widths.len() {
                widths[k]
            } else {
                0
            };
            if w != 0 {
                proof {
                    assert(ps[k as int] == s@.panes[idx@[k as int] as int]);
                    assert(s@.panes[idx@[k as int] as int] == s.panes@[idx@[k as int] as int]@);
                }
                self.paint_pane(&s.panes[idx[k]], col, row0, w, height, scroll, copy);
                col = col.saturating_add(w);
            }
            k = k + 1;
        }
        col
    }

    fn paint_rows(
        &mut self,
        s: &crate::ui::UiSnapshot,
        idx: &Vec<usize>,
        heights: &Vec<usize>,
        headers: bool,
        cols: usize,
        row0: usize,
        scroll: usize,
        copy: Option<CopyModeState>,
    ) -> (row: usize)
        requires
            forall|j: int| 0 <= j < idx@.len() ==> #[trigger] idx@[j] < s.panes.len(),
        ensures
            (final(self)@, row) == paint_rows(
                idx@.map_values(|k: usize| s@.panes[k as int]),
                heights@.map_values(|h: usize| h as int),
                headers,
                cols,
                scroll,
                copy,
                0,
                row0,
                old(self)@,
            ),
    {
        let ghost ps = idx@.map_values(|k: usize| s@.panes[k as int]);
        let ghost hs = heights@.map_values(|h: usize| h as int);
        let ghost target = paint_rows(ps, hs, headers, cols, scroll, copy, 0, row0, self@);
        let mut row: usize = row0;
        let mut k: usize = 0;
        while k < idx.len()
            invariant
                k <= idx.len(),
                ps == idx@.map_values(|m: usize| s@.panes[m as int]),
                hs == heights@.map_values(|h: usize| h as int),
                forall|j: int| 0 <= j < idx@.len() ==> #[trigger] idx@[j] < s.panes.len(),
                paint_rows(ps, hs, headers, cols, scroll, copy, k as int, row, self@) == target,
            decreases idx.len() - k,
        {
            let h = if k < heights.len() {
                heights[k]
            } else {
                0
            };
            if h != 0 {
                proof {
                    assert(ps[k as int] == s@.panes[idx@[k as int] as int]);
                    assert(s@.panes[idx@[k as int] as int] == s.panes@[idx@[k as int] as int]@);
                }
                let p = &s.panes[idx[k]];
                if headers {
                    let mut t = lit("── pane ");
                    push_decimal(&mut t, p.pane_id);
                    if p.active {
                        append_str(&mut t, "*");
                    } else {
                        proof {
                            reveal_strlit("");
                            assert(t@ + ""@ =~= t@);
                        }
                    }
                    append_str(&mut t, " (");
                    append_str(&mut t, p.pane_title.as_str());
                    append_str(&mut t, ") ─");
                    let ghost before = self@.ops;
                    self.ops.push(DrawOp::Bar {
                        row,
                        text: t,
                        fg: if p.active {
                            Color::Black
                        } else {
                            Color::White
                        },
                        bg: if p.active {
                            Color::DarkGreen
                        } else {
                            Color::DarkGrey
                        },
                    });
                    proof {
                        assert(self@.ops =~= before + seq![DrawOpView::Bar {
                            row: row,
                            text: pane_header(p@),
                            fg: if p@.active {
                                Color::Black
                            } else {
                                Color::White
                            },
                            bg: if p@.active {
                                Color::DarkGreen
                            } else {
                                Color::DarkGrey
                            },
                        }]);
                    }
                    row = row.saturating_add(1);
                }
                self.paint_pane(p, 0, row, cols, h, scroll, copy);
                row = row.saturating_add(h);
            }
            k = k + 1;
        }
        row
    }
}

fn requested_sizes(s: &crate::ui::UiSnapshot, idx: &Vec<usize>, by_cols: bool) -> (r: Vec<usize>)
    requires
        forall|j: int| 0 <= j < idx@.len() ==> #[trigger] idx@[j] < s.panes.len(),
    ensures
        r@ == idx@.map_values(|k: usize| s@.panes[k as int]).map_values(|p: crate::proto::PaneInfoView| if by_cols {
            p.cols as usize
        } else {
            p.rows as usize
        }),
{
    let ghost want = idx@.map_values(|k: usize| s@.panes[k as int]).map_values(|p: crate::proto::PaneInfoView| if by_cols {
        p.cols as usize
    } else {
        p.rows as usize
    });
    let mut out: Vec<usize> = Vec::new();
    let mut k: usize = 0;
    while k < idx.len()
        invariant
            k <= idx.len(),
            forall|j: int| 0 <= j < idx@.len() ==> #[trigger] idx@[j] < s.panes.len(),
            want == idx@.map_values(|m: usize| s@.panes[m as int]).map_values(|p: crate::proto::PaneInfoView| if by_cols {
                p.cols as usize
            } else {
                p.rows as usize
            }),
            out@ == want.take(k as int),
        decreases idx.len() - k,
    {
        proof {
            assert(s@.panes[idx@[k as int] as int] == s.panes@[idx@[k as int] as int]@);
        }
        let p = &s.panes[idx[k]];
        out.push(if by_cols {
            p.cols as usize
        } else {
            p.rows as usize
        });
        proof {
            assert(out@ =~= want.take(k + 1));
        }
        k = k + 1;
    }
    proof {
        assert(want.take(k as int) =~= want);
    }
    out
}

/// The panes of the shown window drawn in the content area.
pub fn paint_area_exec(
    s: &crate::ui::UiSnapshot,
    u: &crate::client::UiState,
    cols: usize,
    row0: usize,
    height: usize,
) -> (r: PaintState)
    requires
        row0 + height <= usize::MAX,
    ensures
        r@ == paint_area(s@, u@, cols, row0, height),
{
    let idx = shown_pane_indices(s);
    let mut paint = PaintState { ops: Vec::new(), cursor: None, active: Vec::new() };
    proof {
        assert(paint@.ops =~= Seq::<DrawOpView>::empty());
        assert(paint@.active =~= Seq::<Seq<Cell>>::empty());
    }
    if idx.len() == 0 {
        let mut ls: Vec<Vec<Cell>> = Vec::new();
        ls.push(crate::terminal::styled_from_str("<shell ready: start typing in this window>"));
        push_region(&mut paint.ops, row0, height, 0, cols, &ls, u.copy_mode);
        paint.active = ls;
        proof {
            assert(crate::terminal::grid(paint.active@) =~= seq![crate::terminal::plain_cells(ready_text())]);
            assert(paint@.ops =~= region(row0, height, 0, cols, seq![crate::terminal::plain_cells(ready_text())], u@.copy_mode, 0));
        }
        return paint;
    }
    let wi = match crate::ui::active_window_index(s) {
        Some(wi) => wi,
        None => {
            proof {
                assert(false);
            }
            0
        },
    };
    proof {
        assert(s@.windows[wi as int] == s.windows@[wi as int]@);
        assert(shown_panes(s@).len() == idx@.len());
        assert(shown_panes(s@).len() > 0);
    }
    match &s.windows[wi].layout_tree {
        Some(tree) => {
            let rects = crate::screen::build_split_rects(tree, 0, row0, cols, height);
            let borders = crate::screen::split_borders_exec(tree, 0, row0, cols, height);
            paint.blank_rows(row0, row0.saturating_add(height), 0, cols);
            let mut b: usize = 0;
            let ghost bv = borders@.map_values(|x: crate::screen::Border| DrawOpView::Border(x));
            let ghost head = paint@.ops;
            while b < borders.len()
                invariant
                    b <= borders.len(),
                    bv == borders@.map_values(|x: crate::screen::Border| DrawOpView::Border(x)),
                    paint@.ops == head + bv.take(b as int),
                    paint@.cursor is None,
                    paint@.active == Seq::<Seq<Cell>>::empty(),
                decreases borders.len() - b,
            {
                let ghost before = paint@.ops;
                paint.ops.push(DrawOp::Border(borders[b]));
                proof {
                    assert(paint@.ops =~= before.push(bv[b as int]));
                    assert(bv.take(b + 1) =~= bv.take(b as int).push(bv[b as int]));
                }
                b = b + 1;
            }
            proof {
                assert(bv.take(b as int) =~= bv);
            }
            paint.paint_rects(s, &idx, &rects, u.scroll_offset, u.copy_mode);
            paint
        },
        None => match s.windows[wi].layout {
            crate::proto::SplitOrientation::Vertical => {
                let req = requested_sizes(s, &idx, true);
                proof {
                    assert(req@ =~= shown_panes(s@).map_values(|p: crate::proto::PaneInfoView| p.cols as usize));
                }
                let widths = distribute_slots_checked(&req, cols, 10);
                let col = paint.paint_columns(s, &idx, &widths, row0, height, u.scroll_offset, u.copy_mode);
                if col < cols {
                    paint.blank_rows(row0, row0.saturating_add(height), col, cols - col);
                }
                paint
            },
            crate::proto::SplitOrientation::Horizontal => {
                let n = idx.len();
                let headers = n > 1;
                let total = if headers {
                    let t = height.saturating_sub(n);
                    if t >= n {
                        t
                    } else {
                        n
                    }
                } else {
                    if height >= 1 {
                        height
                    } else {
                        1
                    }
                };
                let req = requested_sizes(s, &idx, false);
                proof {
                    assert(req@ =~= shown_panes(s@).map_values(|p: crate::proto::PaneInfoView| p.rows as usize));
                }
                let heights = distribute_slots_checked(&req, total, 1);
                let row = paint.paint_rows(s, &idx, &heights, headers, cols, row0, u.scroll_offset, u.copy_mode);
                paint.blank_rows(row, row0.saturating_add(height), 0, cols);
                paint
            },
        },
    }
}

fn distribute_slots_checked(req: &Vec<usize>, total: usize, min_slot: usize) -> (r: Vec<usize>)
    ensures
        r@.map_values(|w: usize| w as int) == crate::screen::slots(req@, total, min_slot),
{
    let r = crate::screen::distribute_slots(req, total, min_slot);
    proof {
        assert(r@.map_values(|w: usize| w as int) =~= crate::screen::slots(req@, total, min_slot));
    }
    r
}

// ---------------------------------------------------------------------------
// The whole frame
// ---------------------------------------------------------------------------

/// Plain text rows at column 0, `width` wide, from row `row0 + i` on.
pub open spec fn text_rows(lines: Seq<Seq<char>>, row0: usize, width: usize, i: int) -> Seq<DrawOpView>
    decreases lines.len() - i,
{
    if i < 0 || i >= lines.len() {
        seq![]
    } else {
        seq![DrawOpView::Text { row: sat_add(row0, i as usize), col: 0, width: width, text: lines[i] }] + text_rows(
            lines,
            row0,
            width,
            i + 1,
        )
    }
}

/// The first row of the content area.
pub open spec fn content_start(s: crate::ui::SnapshotView, show_meta: bool, rows: usize) -> usize {
    if show_meta {
        min_of(sat_add(crate::bars::meta_lines(s).len() as usize, 2), sat_sub(rows, 2))
    } else {
        1
    }
}

/// The title of a floating pane's box.
pub open spec fn floating_title(p: crate::proto::PaneInfoView) -> Seq<char> {
    "pane "@ + decimal(p.pane_id as nat) + " ("@ + p.pane_title + ") [floating]"@
}

/// The boxes of the floating panes from `k` on.
pub open spec fn floating_boxes(panes: Seq<crate::proto::PaneInfoView>, cols: usize, rows: usize, k: int) -> Seq<DrawOpView>
    decreases panes.len() - k,
{
    if k < 0 || k >= panes.len() {
        seq![]
    } else {
        let p = panes[k];
        (if p.floating {
            let raw = match p.last_output {
                Some(o) => o,
                None => seq![],
            };
            let shown = crate::terminal::rendered_pane(raw, sat_sub(cols, 8), sat_sub(rows, 6), 0).0;
            popup_box(cols, rows, floating_title(p), shown.map_values(|l: Seq<Cell>| cells_text(l)))
        } else {
            seq![]
        }) + floating_boxes(panes, cols, rows, k + 1)
    }
}

/// The lines the active pane shows, as text without trailing blanks.
pub open spec fn content_lines(active: Seq<Seq<Cell>>) -> Seq<Seq<char>> {
    if active.len() == 0 {
        seq![ready_text()]
    } else {
        active.map_values(|l: Seq<Cell>| crate::display::trim_end(cells_text(l)))
    }
}

/// The top bar and, when the panel is on, the metadata rows.
pub open spec fn head_ops(s: crate::ui::SnapshotView, show_meta: bool, c: usize, r: usize) -> Seq<DrawOpView> {
    let meta = if show_meta {
        let ls = crate::bars::meta_lines(s);
        text_rows(if ls.len() <= sat_sub(r, 3) {
            ls
        } else {
            ls.take(sat_sub(r, 3) as int)
        }, 1, c, 0)
    } else {
        seq![]
    };
    seq![DrawOpView::Bar { row: 0, text: top_bar_text(), fg: Color::Black, bg: Color::Cyan }] + meta
}

/// The bottom bar and the status line.
pub open spec fn bar_ops(
    s: crate::ui::SnapshotView,
    u: crate::client::UiView,
    cfg: crate::bars::UiConfigView,
    host: Seq<char>,
    clock: Seq<char>,
    lo: Seq<Option<Seq<char>>>,
    ro: Seq<Option<Seq<char>>>,
    c: usize,
    r: usize,
) -> Seq<DrawOpView> {
    seq![
        DrawOpView::Bar {
            row: sat_sub(r, 2),
            text: bottom_bar(s, cfg, host, clock, lo, ro, c),
            fg: color_or(cfg.status_fg, Color::Black),
            bg: color_or(cfg.status_bg, Color::DarkGreen),
        },
        DrawOpView::Bar { row: sat_sub(r, 1), text: status_line(s, u), fg: Color::White, bg: status_color(u) },
    ]
}

/// The boxes over the panes: floating panes, the popup, and the popup's
/// command line.
pub open spec fn overlay_ops(s: crate::ui::SnapshotView, u: crate::client::UiView, c: usize, r: usize) -> Seq<DrawOpView> {
    let popups = match u.popup {
        Some((t, ls)) => popup_box(c, r, t, ls),
        None => seq![],
    };
    let input = match u.popup_input {
        Some(i) => popup_box(c, r, "run-shell"@, seq!["popup-shell: "@ + i]),
        None => seq![],
    };
    floating_boxes(shown_panes(s), c, r, 0) + popups + input
}

/// The height of the content area below its first row `cs`.
pub open spec fn content_height(cs: usize, r: usize) -> usize {
    let ch0 = sat_sub(r, sat_add(cs, 2));
    if ch0 >= 1 {
        ch0
    } else {
        1
    }
}

/// What a frame draws, where the cursor shows (nowhere under copy mode or
/// a popup), and the lines the active pane shows.
pub open spec fn compose(
    s: crate::ui::SnapshotView,
    u: crate::client::UiView,
    cfg: crate::bars::UiConfigView,
    host: Seq<char>,
    clock: Seq<char>,
    lo: Seq<Option<Seq<char>>>,
    ro: Seq<Option<Seq<char>>>,
    cols: u16,
    rows: u16,
) -> (Seq<DrawOpView>, Option<(usize, usize)>, Seq<Seq<char>>) {
    let c = cols as usize;
    let r = rows as usize;
    let cs = content_start(s, u.show_meta, r);
    let area = paint_area(s, u, c, cs, content_height(cs, r));
    let ops = head_ops(s, u.show_meta, c, r) + bar_ops(s, u, cfg, host, clock, lo, ro, c, r) + area.ops + overlay_ops(
        s,
        u,
        c,
        r,
    );
    let cursor = if u.copy_mode is Some || u.popup is Some || u.popup_input is Some {
        None
    } else {
        area.cursor
    };
    (ops, cursor, content_lines(area.active))
}

/// One frame of the client's screen.
pub struct Frame {
    pub ops: Vec<DrawOp>,
    pub cursor: Option<(usize, usize)>,
    pub content_lines: Vec<String>,
}

fn append_ops(ops: &mut Vec<DrawOp>, more: Vec<DrawOp>)
    ensures
        ops_view(final(ops)@) == ops_view(old(ops)@) + ops_view(more@),
{
    let mut more = more;
    let ghost m = ops_view(more@);
    ops.append(&mut more);
    proof {
        assert(ops_view(final(ops)@) =~= ops_view(old(ops)@) + m);
    }
}

fn push_op(ops: &mut Vec<DrawOp>, op: DrawOp)
    ensures
        ops_view(final(ops)@) == ops_view(old(ops)@).push(op@),
{
    ops.push(op);
    proof {
        assert(ops_view(final(ops)@) =~= ops_view(old(ops)@).push(op@));
    }
}

fn trim_end_exec(t: &str) -> (r: String)
    ensures
        r@ == crate::display::trim_end(t@),
{
    let cs = chars_of(t);
    let ghost v = cs@;
    let n = cs.len();
    let mut b: usize = n;
    while b > 0 && crate::text::char_is_ws(cs[b - 1])
        invariant
            b <= n,
            n == cs.len(),
            v == cs@,
            forall|j: int| b <= j < n ==> !crate::text::not_ws()(#[trigger] v[j]),
        decreases b,
    {
        b = b - 1;
    }
    proof {
        let rv = v.reverse();
        assert forall|j: int| 0 <= j < n - b implies !crate::text::not_ws()(#[trigger] rv[j]) by {
            assert(rv[j] == v[n - 1 - j]);
        }
        if b > 0 {
            assert(rv[n - b] == v[b - 1]);
            lemma_first_index_is(rv, crate::text::not_ws(), n - b);
        } else {
            lemma_first_index_none(rv, crate::text::not_ws());
            assert(v.take(0) =~= Seq::<char>::empty());
        }
    }
    crate::text::string_of_range(&cs, 0, b)
}

fn head_ops_exec(s: &crate::ui::UiSnapshot, show_meta: bool, c: usize, r: usize) -> (out: (Vec<DrawOp>, usize))
    ensures
        ops_view(out.0@) == head_ops(s@, show_meta, c, r),
        out.1 == content_start(s@, show_meta, r),
{
    let mut ops: Vec<DrawOp> = Vec::new();
    push_op(&mut ops, DrawOp::Bar { row: 0, text: lit("dmux ui | Ctrl-b prefix | c new-window | \" split | % split | n/p window | o next-pane | ; last-pane | d detach | q quit | m meta | : command | PgUp/PgDn scroll"), fg: Color::Black, bg: Color::Cyan });
    proof {
        assert(ops_view(ops@) =~= seq![DrawOpView::Bar { row: 0, text: top_bar_text(), fg: Color::Black, bg: Color::Cyan }]);
    }
    if !show_meta {
        proof {
            assert(ops_view(ops@) =~= head_ops(s@, show_meta, c, r));
        }
        return (ops, 1);
    }
    let ls = crate::bars::build_meta_lines(s);
    let limit = r.saturating_sub(3);
    let ghost lv = views_of(ls@);
    let ghost shown = if lv.len() <= limit {
        lv
    } else {
        lv.take(limit as int)
    };
    let ghost head = ops_view(ops@);
    let mut i: usize = 0;
    while i < ls.len() && i < limit
        invariant
            i <= ls.len(),
            lv == views_of(ls@),
            shown == (if lv.len() <= limit {
                lv
            } else {
                lv.take(limit as int)
            }),
            i <= shown.len(),
            ops_view(ops@) + text_rows(shown, 1, c, i as int) == head + text_rows(shown, 1, c, 0),
        decreases ls.len() - i,
    {
        let ghost before = ops_view(ops@);
        push_op(&mut ops, DrawOp::Text { row: 1usize.saturating_add(i), col: 0, width: c, text: ls[i].clone() });
        proof {
            assert(shown[i as int] == ls@[i as int]@);
            assert(before + text_rows(shown, 1, c, i as int) =~= ops_view(ops@) + text_rows(shown, 1, c, i + 1));
        }
        i = i + 1;
    }
    proof {
        assert(text_rows(shown, 1, c, i as int) =~= Seq::<DrawOpView>::empty());
        assert(ops_view(ops@) + Seq::<DrawOpView>::empty() =~= ops_view(ops@));
    }
    let m2 = ls.len().saturating_add(2);
    let lim2 = r.saturating_sub(2);
    let cs = if m2 <= lim2 {
        m2
    } else {
        lim2
    };
    (ops, cs)
}

fn bar_ops_exec(
    s: &crate::ui::UiSnapshot,
    u: &crate::client::UiState,
    cfg: &crate::bars::UiConfig,
    fill: &StatusFill,
    c: usize,
    r: usize,
) -> (ops: Vec<DrawOp>)
    ensures
        ops_view(ops@) == bar_ops(
            s@,
            u@,
            cfg@,
            fill.host@,
            fill.clock@,
            outputs_view(fill.left_outputs@),
            outputs_view(fill.right_outputs@),
            c,
            r,
        ),
{
    let bar = crate::bars::build_window_pane_bar(s);
    let sess = match &s.attached_session {
        Some(a) => a.clone(),
        None => lit("-"),
    };
    let win = first_active_window_exec(s);
    let pid = first_active_pane_exec(s);
    let left = match &cfg.status_left {
        Some(t) => Some(crate::bars::substitute_status(t.as_str(), sess.as_str(), win.as_str(), pid.as_str(), fill.host.as_str(), fill.clock.as_str(), &fill.left_outputs)),
        None => None,
    };
    let right = match &cfg.status_right {
        Some(t) => Some(crate::bars::substitute_status(t.as_str(), sess.as_str(), win.as_str(), pid.as_str(), fill.host.as_str(), fill.clock.as_str(), &fill.right_outputs)),
        None => None,
    };
    let text = bar_text_exec(left, right, bar, c);
    let fg = match &cfg.status_fg {
        Some(n) => match crate::terminal::parse_color_name(n.as_str()) {
            Some(x) => x,
            None => Color::Black,
        },
        None => Color::Black,
    };
    let bg = match &cfg.status_bg {
        Some(n) => match crate::terminal::parse_color_name(n.as_str()) {
            Some(x) => x,
            None => Color::DarkGreen,
        },
        None => Color::DarkGreen,
    };
    let mut ops: Vec<DrawOp> = Vec::new();
    push_op(&mut ops, DrawOp::Bar { row: r.saturating_sub(2), text, fg, bg });
    push_op(&mut ops, DrawOp::Bar { row: r.saturating_sub(1), text: status_line_exec(s, u), fg: Color::White, bg: status_color_exec(u) });
    proof {
        assert(ops_view(ops@) =~= bar_ops(s@, u@, cfg@, fill.host@, fill.clock@, outputs_view(fill.left_outputs@), outputs_view(fill.right_outputs@), c, r));
    }
    ops
}

fn overlay_ops_exec(s: &crate::ui::UiSnapshot, u: &crate::client::UiState, c: usize, r: usize) -> (ops: Vec<DrawOp>)
    ensures
        ops_view(ops@) == overlay_ops(s@, u@, c, r),
{
    let idx = shown_pane_indices(s);
    let mut ops = floating_boxes_exec(s, &idx, c, r);
    match &u.popup {
        Some(p) => {
            let b = popup_box_exec(c, r, p.title.as_str(), &p.lines);
            append_ops(&mut ops, b);
        },
        None => {
            proof {
                assert(ops_view(ops@) + Seq::<DrawOpView>::empty() =~= ops_view(ops@));
            }
        },
    }
    match &u.popup_input {
        Some(i) => {
            let mut lines: Vec<String> = Vec::new();
            lines.push(crate::text::concat2("popup-shell: ", i.as_str()));
            proof {
                assert(views_of(lines@) =~= seq!["popup-shell: "@ + i@]);
            }
            let b = popup_box_exec(c, r, "run-shell", &lines);
            proof {
                reveal_strlit("run-shell");
            }
            append_ops(&mut ops, b);
        },
        None => {
            proof {
                assert(ops_view(ops@) + Seq::<DrawOpView>::empty() =~= ops_view(ops@));
            }
        },
    }
    ops
}

/// Composes a frame of the client's screen for a terminal `cols` by
/// `rows`: `fill` holds the host name, the time and what the status
/// templates' commands printed.
pub fn compose_frame(
    s: &crate::ui::UiSnapshot,
    u: &crate::client::UiState,
    cfg: &crate::bars::UiConfig,
    fill: &StatusFill,
    cols: u16,
    rows: u16,
) -> (f: Frame)
    ensures
        (ops_view(f.ops@), f.cursor, views_of(f.content_lines@)) == compose(
            s@,
            u@,
            cfg@,
            fill.host@,
            fill.clock@,
            outputs_view(fill.left_outputs@),
            outputs_view(fill.right_outputs@),
            cols,
            rows,
        ),
{
    let c = cols as usize;
    let r = rows as usize;
    let (mut ops, cs) = head_ops_exec(s, u.show_meta, c, r);
    let bars = bar_ops_exec(s, u, cfg, fill, c, r);
    append_ops(&mut ops, bars);
    let ch0 = r.saturating_sub(cs.saturating_add(2));
    let ch = if ch0 >= 1 {
        ch0
    } else {
        1
    };
    proof {
        assert(cs <= r || cs == 1);
    }
    let area = paint_area_exec(s, u, c, cs, ch);
    let cursor = if u.copy_mode.is_some() || u.popup.is_some() || u.popup_input.is_some() {
        None
    } else {
        area.cursor
    };
    let content = content_lines_exec(&area.active);
    append_ops(&mut ops, area.ops);
    let over = overlay_ops_exec(s, u, c, r);
    append_ops(&mut ops, over);
    Frame { ops, cursor, content_lines: content }
}

fn first_active_window_exec(s: &crate::ui::UiSnapshot) -> (r: String)
    ensures
        r@ == first_active_window_name(s@),
{
    let ghost ws = s@.windows;
    let ghost pred = crate::ui::any_active();
    let mut i: usize = 0;
    while i < s.windows.len()
        invariant
            i <= s.windows.len(),
            ws == s@.windows,
            pred == crate::ui::any_active(),
            forall|j: int| 0 <= j < i ==> !pred(#[trigger] ws[j]),
        decreases s.windows.len() - i,
    {
        proof {
            assert(ws[i as int] == s.windows@[i as int]@);
        }
        if s.windows[i].active {
            proof {
                lemma_first_index_is(ws, pred, i as int);
            }
            return s.windows[i].window_name.clone();
        }
        i = i + 1;
    }
    proof {
        lemma_first_index_none(ws, pred);
    }
    String::new()
}

fn first_active_pane_exec(s: &crate::ui::UiSnapshot) -> (r: String)
    ensures
        r@ == first_active_pane_id(s@),
{
    let ghost ps = s@.panes;
    let ghost pred = |p: crate::proto::PaneInfoView| p.active;
    let mut i: usize = 0;
    while i < s.panes.len()
        invariant
            i <= s.panes.len(),
            ps == s@.panes,
            pred == (|p: crate::proto::PaneInfoView| p.active),
            forall|j: int| 0 <= j < i ==> !pred(#[trigger] ps[j]),
        decreases s.panes.len() - i,
    {
        proof {
            assert(ps[i as int] == s.panes@[i as int]@);
        }
        if s.panes[i].active {
            proof {
                lemma_first_index_is(ps, pred, i as int);
            }
            return u64_to_string(s.panes[i].pane_id);
        }
        i = i + 1;
    }
    proof {
        lemma_first_index_none(ps, pred);
    }
    String::new()
}

fn bar_text_exec(left: Option<String>, right: Option<String>, bar: String, cols: usize) -> (r: String)
    ensures
        r@ == bar_text(left.deep_view(), right.deep_view(), bar@, cols),
{
    match (left, right) {
        (Some(l), Some(rt)) => {
            let used: u128 = (chars_of(l.as_str()).len() as u128) + (chars_of(rt.as_str()).len() as u128) + (chars_of(
                bar.as_str(),
            ).len() as u128);
            let pad: usize = if (cols as u128) >= used {
                (cols as u128 - used) as usize
            } else {
                0
            };
            let mut t = l;
            append_str(&mut t, " ");
            append_str(&mut t, bar.as_str());
            push_repeat(&mut t, ' ', pad);
            append_str(&mut t, rt.as_str());
            t
        },
        (Some(l), None) => {
            let mut t = l;
            append_str(&mut t, " ");
            append_str(&mut t, bar.as_str());
            t
        },
        (None, Some(rt)) => {
            let mut t = bar;
            append_str(&mut t, " ");
            append_str(&mut t, rt.as_str());
            t
        },
        (None, None) => bar,
    }
}

fn content_lines_exec(active: &Vec<Vec<Cell>>) -> (r: Vec<String>)
    ensures
        views_of(r@) == content_lines(crate::terminal::grid(active@)),
{
    let ghost g = crate::terminal::grid(active@);
    let mut out: Vec<String> = Vec::new();
    if active.len() == 0 {
        out.push(lit("<shell ready: start typing in this window>"));
        proof {
            assert(views_of(out@) =~= seq![ready_text()]);
        }
        return out;
    }
    let ghost want = g.map_values(|l: Seq<Cell>| crate::display::trim_end(cells_text(l)));
    let mut i: usize = 0;
    while i < active.len()
        invariant
            i <= active.len(),
            g == crate::terminal::grid(active@),
            want == g.map_values(|l: Seq<Cell>| crate::display::trim_end(cells_text(l))),
            views_of(out@) == want.take(i as int),
        decreases active.len() - i,
    {
        let t = cells_text_exec(&active[i]);
        let ghost before = views_of(out@);
        out.push(trim_end_exec(t.as_str()));
        proof {
            assert(views_of(out@) =~= before.push(want[i as int]));
            assert(want.take(i + 1) =~= want.take(i as int).push(want[i as int]));
        }
        i = i + 1;
    }
    proof {
        assert(want.take(i as int) =~= want);
    }
    out
}

fn floating_boxes_exec(s: &crate::ui::UiSnapshot, idx: &Vec<usize>, cols: usize, rows: usize) -> (r: Vec<DrawOp>)
    requires
        forall|j: int| 0 <= j < idx@.len() ==> #[trigger] idx@[j] < s.panes.len(),
    ensures
        ops_view(r@) == floating_boxes(idx@.map_values(|k: usize| s@.panes[k as int]), cols, rows, 0),
{
    let ghost ps = idx@.map_values(|k: usize| s@.panes[k as int]);
    let mut out: Vec<DrawOp> = Vec::new();
    let mut k: usize = 0;
    while k < idx.len()
        invariant
            k <= idx.len(),
            ps == idx@.map_values(|m: usize| s@.panes[m as int]),
            forall|j: int| 0 <= j < idx@.len() ==> #[trigger] idx@[j] < s.panes.len(),
            ops_view(out@) + floating_boxes(ps, cols, rows, k as int) == floating_boxes(ps, cols, rows, 0),
        decreases idx.len() - k,
    {
        proof {
            assert(ps[k as int] == s@.panes[idx@[k as int] as int]);
            assert(s@.panes[idx@[k as int] as int] == s.panes@[idx@[k as int] as int]@);
        }
        let p = &s.panes[idx[k]];
        let ghost before = ops_view(out@);
        if p.floating {
            let raw: &str = match &p.last_output {
                Some(o) => o.as_str(),
                None => "",
            };
            proof {
                if p.last_output is None {
                    reveal_strlit("");
                }
            }
            let rp = crate::terminal::render_terminal_styled(raw, cols.saturating_sub(8), rows.saturating_sub(6), 0);
            let mut lines: Vec<String> = Vec::new();
            let ghost g = crate::terminal::grid(rp.lines@);
            let mut j: usize = 0;
            while j < rp.lines.len()
                invariant
                    j <= rp.lines.len(),
                    g == crate::terminal::grid(rp.lines@),
                    views_of(lines@) == g.map_values(|l: Seq<Cell>| cells_text(l)).take(j as int),
                decreases rp.lines.len() - j,
            {
                let ghost lb = views_of(lines@);
                lines.push(cells_text_exec(&rp.lines[j]));
                proof {
                    assert(views_of(lines@) =~= lb.push(cells_text(g[j as int])));
                    assert(g.map_values(|l: Seq<Cell>| cells_text(l)).take(j + 1) =~= g.map_values(|l: Seq<Cell>| cells_text(l)).take(j as int).push(cells_text(g[j as int])));
                }
                j = j + 1;
            }
            proof {
                assert(g.map_values(|l: Seq<Cell>| cells_text(l)).take(j as int) =~= g.map_values(|l: Seq<Cell>| cells_text(l)));
            }
            let mut title = lit("pane ");
            push_decimal(&mut title, p.pane_id);
            append_str(&mut title, " (");
            append_str(&mut title, p.pane_title.as_str());
            append_str(&mut title, ") [floating]");
            let b = popup_box_exec(cols, rows, title.as_str(), &lines);
            append_ops(&mut out, b);
        }
        proof {
            assert(before + floating_boxes(ps, cols, rows, k as int) =~= ops_view(out@) + floating_boxes(ps, cols, rows, k + 1));
        }
        k = k + 1;
    }
    proof {
        assert(floating_boxes(ps, cols, rows, k as int) =~= Seq::<DrawOpView>::empty());
        assert(ops_view(out@) + Seq::<DrawOpView>::empty() =~= ops_view(out@));
    }
    out
}
} // verus!
