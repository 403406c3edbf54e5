//! What some operations are for, stated over all their inputs: which way a
//! resize moves a border, which way each preset splits, which colours the
//! basic SGR codes name, which way `-h` and `-v` split, and what a selection
//! within one row yanks.
use vstd::prelude::*;
use crate::layout::{
    SplitNode, WindowLayout, PresetLayout, ResizeDirection, moved_ratio, clamp, max2, spec_resize,
    divide_axis, direction_matches, spec_build_preset, spec_even_split, spec_main_split, other_layout,
    MIN_PANE_AXIS_SIZE,
};
use crate::terminal::{Color, ansi_basic_color, color_named};
use crate::command::{scan_split, TargetView};
use crate::proto::SplitOrientation;
use crate::copy::{CopyModeState, yanked, yank_rows};

verus! {

// ---------------------------------------------------------------------------
// Resizing
// ---------------------------------------------------------------------------

/// The least ratio a split may take when its first part needs `min_first`
/// cells of an axis `axis` cells long.
pub open spec fn least_ratio(min_first: int, axis: int) -> int {
    clamp(min_first * 1000 / max2(axis, 1), 1, 999)
}

/// The greatest ratio a split may take when its second part needs
/// `min_second` cells of an axis `axis` cells long.
pub open spec fn most_ratio(min_second: int, axis: int) -> int {
    clamp(1000 - min_second * 1000 / max2(axis, 1), 1, 999)
}

/// Moving a border left or up never raises a split's ratio and moving it
/// right or down never lowers it; while there is room, it moves strictly.
pub proof fn law_moved_ratio_direction(
    r: u16,
    direction: ResizeDirection,
    amount: u16,
    axis: int,
    min_first: int,
    min_second: int,
)
    requires
        least_ratio(min_first, axis) <= r <= most_ratio(min_second, axis),
    ensures
        moved_ratio(r, direction, amount, axis, min_first, min_second) matches Some(r2) ==> {
            &&& (direction == ResizeDirection::Left || direction == ResizeDirection::Up) ==> r2 <= r
                && (r > least_ratio(min_first, axis) ==> r2 < r)
            &&& (direction == ResizeDirection::Right || direction == ResizeDirection::Down) ==> r2 >= r
                && (r < most_ratio(min_second, axis) ==> r2 > r)
        },
{
    let axis_size = max2(axis, 1);
    let step = max2(max2(amount as int, 1) * 1000 / axis_size, 1);
    assert(step >= 1);
}

/// How far one resize moves a ratio, in thousandths of the axis: `amount`
/// cells (at least one) of an axis `axis` cells long, and never less than 1.
pub open spec fn resize_step(amount: int, axis: int) -> int {
    max2(max2(amount, 1) * 1000 / max2(axis, 1), 1)
}

/// A resize moves the ratio by exactly one step of `amount` cells, down for
/// left or up and up for right or down, and stops at the bound that the
/// panes on either side need.
pub proof fn law_moved_ratio_by_step(
    r: u16,
    direction: ResizeDirection,
    amount: u16,
    axis: int,
    min_first: int,
    min_second: int,
)
    requires
        least_ratio(min_first, axis) <= r <= most_ratio(min_second, axis),
    ensures
        ({
            let step = resize_step(amount as int, axis);
            let least = least_ratio(min_first, axis);
            let most = most_ratio(min_second, axis);
            moved_ratio(r, direction, amount, axis, min_first, min_second) == Some(
                (if direction == ResizeDirection::Left || direction == ResizeDirection::Up {
                    if r - step < least { least } else { r - step }
                } else {
                    if r + step > most { most } else { r + step }
                }) as u16,
            )
        }),
{
}

/// Resizing the first pane of a split of two panes, along the split, moves
/// its border the way asked: left or up never raises the ratio and right or
/// down never lowers it, while the ratio lies within what the two panes
/// need; it moves by one step of the amount, up to that bound, and the
/// panes and the orientation stay.
pub proof fn law_resize_two_panes(
    o: WindowLayout,
    r: u16,
    p: u64,
    q: u64,
    direction: ResizeDirection,
    amount: u16,
    width: int,
    height: int,
)
    requires
        direction_matches(direction, o),
        ({
            let axis = divide_axis(if o == WindowLayout::Vertical { width } else { height }, r).2;
            least_ratio(MIN_PANE_AXIS_SIZE as int, axis) <= r <= most_ratio(MIN_PANE_AXIS_SIZE as int, axis)
        }),
    ensures
        ({
            let n = SplitNode::Split {
                orientation: o,
                split_ratio: r,
                first: Box::new(SplitNode::Leaf { pane_id: p }),
                second: Box::new(SplitNode::Leaf { pane_id: q }),
            };
            let (m, moved) = spec_resize(n, p, direction, amount, width, height);
            moved ==> (m matches SplitNode::Split { orientation: o2, split_ratio: r2, first, second } && o2 == o
                && *first == SplitNode::Leaf { pane_id: p } && *second == SplitNode::Leaf { pane_id: q }
                && ((direction == ResizeDirection::Left || direction == ResizeDirection::Up) ==> r2 <= r)
                && ((direction == ResizeDirection::Right || direction == ResizeDirection::Down) ==> r2 >= r)
                && ({
                    let axis = divide_axis(if o == WindowLayout::Vertical { width } else { height }, r).2;
                    let step = resize_step(amount as int, axis);
                    let least = least_ratio(MIN_PANE_AXIS_SIZE as int, axis);
                    let most = most_ratio(MIN_PANE_AXIS_SIZE as int, axis);
                    r2 == (if direction == ResizeDirection::Left || direction == ResizeDirection::Up {
                        if r - step < least { least } else { r - step }
                    } else {
                        if r + step > most { most } else { r + step }
                    })
                }))
        }),
{
    let n = SplitNode::Split {
        orientation: o,
        split_ratio: r,
        first: Box::new(SplitNode::Leaf { pane_id: p }),
        second: Box::new(SplitNode::Leaf { pane_id: q }),
    };
    let axis = divide_axis(if o == WindowLayout::Vertical { width } else { height }, r).2;
    assert(crate::layout::leaves(SplitNode::Leaf { pane_id: p }) =~= seq![p]);
    assert(crate::layout::leaves(SplitNode::Leaf { pane_id: p }).contains(p)) by {
        assert(seq![p][0] == p);
    }
    law_moved_ratio_direction(r, direction, amount, axis, MIN_PANE_AXIS_SIZE as int, MIN_PANE_AXIS_SIZE as int);
    law_moved_ratio_by_step(r, direction, amount, axis, MIN_PANE_AXIS_SIZE as int, MIN_PANE_AXIS_SIZE as int);
    let leaf = SplitNode::Leaf { pane_id: p };
    assert(crate::layout::spec_min_axis(leaf, o) == MIN_PANE_AXIS_SIZE as int);
    assert(crate::layout::spec_min_axis(SplitNode::Leaf { pane_id: q }, o) == MIN_PANE_AXIS_SIZE as int);
    assert(spec_resize(leaf, p, direction, amount, 0, 0).1 == false);
    reveal_with_fuel(spec_resize, 2);
    let (m, moved) = spec_resize(n, p, direction, amount, width, height);
    if moved {
        assert(m == SplitNode::Split {
            orientation: o,
            split_ratio: moved_ratio(r, direction, amount, axis, MIN_PANE_AXIS_SIZE as int, MIN_PANE_AXIS_SIZE as int)->0,
            first: Box::new(leaf),
            second: Box::new(SplitNode::Leaf { pane_id: q }),
        });
    }
}

// ---------------------------------------------------------------------------
// Presets
// ---------------------------------------------------------------------------

/// Whether every split of a tree runs along `o`.
pub open spec fn splits_along(n: SplitNode, o: WindowLayout) -> bool
    decreases n,
{
    match n {
        SplitNode::Leaf { .. } => true,
        SplitNode::Split { orientation, first, second, .. } => orientation == o && splits_along(*first, o)
            && splits_along(*second, o),
    }
}

proof fn lemma_even_split_along(ids: Seq<u64>, o: WindowLayout)
    ensures
        splits_along(spec_even_split(ids, o), o),
    decreases ids.len(),
{
    if ids.len() > 1 {
        lemma_even_split_along(ids.drop_first(), o);
        let n = spec_even_split(ids, o);
        let rest = spec_even_split(ids.drop_first(), o);
        assert(n == SplitNode::Split {
            orientation: o,
            split_ratio: crate::layout::even_ratio(ids.len() as int),
            first: Box::new(SplitNode::Leaf { pane_id: ids[0] }),
            second: Box::new(rest),
        });
        assert(splits_along(SplitNode::Leaf { pane_id: ids[0] }, o));
    } else {
        assert(spec_even_split(ids, o) == SplitNode::Leaf { pane_id: ids[0] });
    }
}

/// Even-horizontal puts every pane side by side (each split vertical, as
/// the window's layout), even-vertical stacks them (each split horizontal);
/// main-horizontal and main-vertical give the main pane the first part of
/// a split along the layout and split the rest across it.
pub proof fn law_preset_orientations(ids: Seq<u64>)
    ensures
        spec_build_preset(PresetLayout::EvenHorizontal, ids).0 == WindowLayout::Vertical,
        splits_along(spec_build_preset(PresetLayout::EvenHorizontal, ids).1, WindowLayout::Vertical),
        spec_build_preset(PresetLayout::EvenVertical, ids).0 == WindowLayout::Horizontal,
        splits_along(spec_build_preset(PresetLayout::EvenVertical, ids).1, WindowLayout::Horizontal),
        spec_build_preset(PresetLayout::MainHorizontal, ids).0 == WindowLayout::Horizontal,
        spec_build_preset(PresetLayout::MainVertical, ids).0 == WindowLayout::Vertical,
        ids.len() > 1 ==> (spec_build_preset(PresetLayout::MainHorizontal, ids).1 matches SplitNode::Split {
            orientation,
            first,
            second,
            ..
        } && orientation == WindowLayout::Horizontal && *first == SplitNode::Leaf { pane_id: ids[0] }
            && splits_along(*second, WindowLayout::Vertical)),
        ids.len() > 1 ==> (spec_build_preset(PresetLayout::MainVertical, ids).1 matches SplitNode::Split {
            orientation,
            first,
            second,
            ..
        } && orientation == WindowLayout::Vertical && *first == SplitNode::Leaf { pane_id: ids[0] }
            && splits_along(*second, WindowLayout::Horizontal)),
{
    lemma_even_split_along(ids, WindowLayout::Vertical);
    lemma_even_split_along(ids, WindowLayout::Horizontal);
    if ids.len() > 1 {
        lemma_even_split_along(ids.drop_first(), WindowLayout::Vertical);
        lemma_even_split_along(ids.drop_first(), WindowLayout::Horizontal);
    }
}

/// Whether a tree is a chain that gives each pane an even share: every
/// split has one pane first, which takes a thousandth share of one over the
/// number of panes the split holds (at least 50), and the rest after it.
pub open spec fn shares_evenly(n: SplitNode) -> bool
    decreases n,
{
    match n {
        SplitNode::Leaf { .. } => true,
        SplitNode::Split { split_ratio, first, second, .. } => {
            &&& *first is Leaf
            &&& split_ratio as int == max2(1000int / (crate::layout::leaves(n).len() as int), 50)
            &&& shares_evenly(*second)
        },
    }
}

proof fn lemma_even_split_shares(ids: Seq<u64>, o: WindowLayout)
    requires
        ids.len() >= 1,
    ensures
        shares_evenly(spec_even_split(ids, o)),
    decreases ids.len(),
{
    crate::layout::law_even_split_leaves(ids, o);
    if ids.len() > 1 {
        lemma_even_split_shares(ids.drop_first(), o);
        let n = spec_even_split(ids, o);
        assert(crate::layout::leaves(n).len() == ids.len());
        assert(n == SplitNode::Split {
            orientation: o,
            split_ratio: crate::layout::even_ratio(ids.len() as int),
            first: Box::new(SplitNode::Leaf { pane_id: ids[0] }),
            second: Box::new(spec_even_split(ids.drop_first(), o)),
        });
    }
}

/// The even presets give every pane an even share of the window, and the
/// main presets give the main pane 600 thousandths and share the rest
/// evenly among the others.
pub proof fn law_preset_shares(ids: Seq<u64>)
    requires
        ids.len() >= 1,
    ensures
        shares_evenly(spec_build_preset(PresetLayout::EvenHorizontal, ids).1),
        shares_evenly(spec_build_preset(PresetLayout::EvenVertical, ids).1),
        ids.len() > 1 ==> (spec_build_preset(PresetLayout::MainHorizontal, ids).1 matches SplitNode::Split {
            split_ratio,
            second,
            ..
        } && split_ratio == 600 && shares_evenly(*second)),
        ids.len() > 1 ==> (spec_build_preset(PresetLayout::MainVertical, ids).1 matches SplitNode::Split {
            split_ratio,
            second,
            ..
        } && split_ratio == 600 && shares_evenly(*second)),
{
    lemma_even_split_shares(ids, WindowLayout::Vertical);
    lemma_even_split_shares(ids, WindowLayout::Horizontal);
    if ids.len() > 1 {
        lemma_even_split_shares(ids.drop_first(), WindowLayout::Vertical);
        lemma_even_split_shares(ids.drop_first(), WindowLayout::Horizontal);
    }
}

// ---------------------------------------------------------------------------
// Colours
// ---------------------------------------------------------------------------

/// The names of the basic colours in ANSI order.
pub open spec fn ansi_name(i: int) -> Seq<char> {
    if i == 0 {
        "black"@
    } else if i == 1 {
        "red"@
    } else if i == 2 {
        "green"@
    } else if i == 3 {
        "yellow"@
    } else if i == 4 {
        "blue"@
    } else if i == 5 {
        "magenta"@
    } else {
        "cyan"@
    }
}

proof fn char_at(s: Seq<char>, k: int) -> (c: char)
    requires
        0 <= k < s.len(),
    ensures
        c == s[k],
{
    s[k]
}

/// A name in lower-case letters is its own folded form.
proof fn lemma_lower_name_folds(n: Seq<char>)
    requires
        forall|k: int| 0 <= k < n.len() ==> 'a' <= #[trigger] n[k] <= 'z',
    ensures
        n.map_values(|c: char| crate::terminal::fold_name_char(c)) == n,
{
    let m = n.map_values(|c: char| crate::terminal::fold_name_char(c));
    assert forall|k: int| 0 <= k < n.len() implies #[trigger] m[k] == n[k] by {
        let c = char_at(n, k);
        assert('a' <= c <= 'z');
        assert(crate::terminal::fold_name_char(c) == c);
    }
    assert(m =~= n);
}

/// SGR 30 to 36 give, in ANSI order, the colours that black, red, green,
/// yellow, blue, magenta and cyan name; 91 to 96 the colours that
/// brightred to brightcyan name.
pub proof fn law_basic_colours_in_ansi_order(i: int)
    requires
        0 <= i < 7,
    ensures
        color_named(ansi_name(i)) == Some(ansi_basic_color(i as usize, false)),
        i >= 1 ==> color_named("bright"@ + ansi_name(i)) == Some(ansi_basic_color(i as usize, true)),
{
    reveal_strlit("black");
    reveal_strlit("red");
    reveal_strlit("green");
    reveal_strlit("yellow");
    reveal_strlit("blue");
    reveal_strlit("magenta");
    reveal_strlit("cyan");
    reveal_strlit("white");
    reveal_strlit("grey");
    reveal_strlit("gray");
    reveal_strlit("bright");
    reveal_strlit("brightred");
    reveal_strlit("brightgreen");
    reveal_strlit("brightyellow");
    reveal_strlit("brightblue");
    reveal_strlit("brightmagenta");
    reveal_strlit("brightcyan");
    let n = ansi_name(i);
    lemma_lower_name_folds(n);
    if i == 0 {
        assert(n =~= "black"@);
        
    }
    if i == 1 {
        assert(n =~= "red"@);
        assert(n.len() != "black"@.len());
        let b = "bright"@ + n;
        assert(b =~= "brightred"@);
        assert(b.len() != "black"@.len());
        assert(b.len() != "red"@.len());
        assert(b.len() != "green"@.len());
        assert(b.len() != "yellow"@.len());
        assert(b.len() != "blue"@.len());
        assert(b.len() != "magenta"@.len());
        assert(b.len() != "cyan"@.len());
        assert(b.len() != "white"@.len());
        assert(b.len() != "grey"@.len());
        assert(b.len() != "gray"@.len());
    }
    if i == 2 {
        assert(n =~= "green"@);
        assert(n[0] != "black"@[0]);
        assert(n.len() != "red"@.len());
        let b = "bright"@ + n;
        assert(b =~= "brightgreen"@);
        assert(b.len() != "black"@.len());
        assert(b.len() != "red"@.len());
        assert(b.len() != "green"@.len());
        assert(b.len() != "yellow"@.len());
        assert(b.len() != "blue"@.len());
        assert(b.len() != "magenta"@.len());
        assert(b.len() != "cyan"@.len());
        assert(b.len() != "white"@.len());
        assert(b.len() != "grey"@.len());
        assert(b.len() != "gray"@.len());
        assert(b.len() != "brightred"@.len());
    }
    if i == 3 {
        assert(n =~= "yellow"@);
        assert(n.len() != "black"@.len());
        assert(n.len() != "red"@.len());
        assert(n.len() != "green"@.len());
        let b = "bright"@ + n;
        assert(b =~= "brightyellow"@);
        assert(b.len() != "black"@.len());
        assert(b.len() != "red"@.len());
        assert(b.len() != "green"@.len());
        assert(b.len() != "yellow"@.len());
        assert(b.len() != "blue"@.len());
        assert(b.len() != "magenta"@.len());
        assert(b.len() != "cyan"@.len());
        assert(b.len() != "white"@.len());
        assert(b.len() != "grey"@.len());
        assert(b.len() != "gray"@.len());
        assert(b.len() != "brightred"@.len());
        assert(b.len() != "brightgreen"@.len());
    }
    if i == 4 {
        assert(n =~= "blue"@);
        assert(n.len() != "black"@.len());
        assert(n.len() != "red"@.len());
        assert(n.len() != "green"@.len());
        assert(n.len() != "yellow"@.len());
        let b = "bright"@ + n;
        assert(b =~= "brightblue"@);
        assert(b.len() != "black"@.len());
        assert(b.len() != "red"@.len());
        assert(b.len() != "green"@.len());
        assert(b.len() != "yellow"@.len());
        assert(b.len() != "blue"@.len());
        assert(b.len() != "magenta"@.len());
        assert(b.len() != "cyan"@.len());
        assert(b.len() != "white"@.len());
        assert(b.len() != "grey"@.len());
        assert(b.len() != "gray"@.len());
        assert(b.len() != "brightred"@.len());
        assert(b.len() != "brightgreen"@.len());
        assert(b.len() != "brightyellow"@.len());
    }
    if i == 5 {
        assert(n =~= "magenta"@);
        assert(n.len() != "black"@.len());
        assert(n.len() != "red"@.len());
        assert(n.len() != "green"@.len());
        assert(n.len() != "yellow"@.len());
        assert(n.len() != "blue"@.len());
        let b = "bright"@ + n;
        assert(b =~= "brightmagenta"@);
        assert(b.len() != "black"@.len());
        assert(b.len() != "red"@.len());
        assert(b.len() != "green"@.len());
        assert(b.len() != "yellow"@.len());
        assert(b.len() != "blue"@.len());
        assert(b.len() != "magenta"@.len());
        assert(b.len() != "cyan"@.len());
        assert(b.len() != "white"@.len());
        assert(b.len() != "grey"@.len());
        assert(b.len() != "gray"@.len());
        assert(b.len() != "brightred"@.len());
        assert(b.len() != "brightgreen"@.len());
        assert(b.len() != "brightyellow"@.len());
        assert(b.len() != "brightblue"@.len());
    }
    if i == 6 {
        assert(n =~= "cyan"@);
        assert(n.len() != "black"@.len());
        assert(n.len() != "red"@.len());
        assert(n.len() != "green"@.len());
        assert(n.len() != "yellow"@.len());
        assert(n[0] != "blue"@[0]);
        assert(n.len() != "magenta"@.len());
        let b = "bright"@ + n;
        assert(b =~= "brightcyan"@);
        assert(b.len() != "black"@.len());
        assert(b.len() != "red"@.len());
        assert(b.len() != "green"@.len());
        assert(b.len() != "yellow"@.len());
        assert(b.len() != "blue"@.len());
        assert(b.len() != "magenta"@.len());
        assert(b.len() != "cyan"@.len());
        assert(b.len() != "white"@.len());
        assert(b.len() != "grey"@.len());
        assert(b.len() != "gray"@.len());
        assert(b.len() != "brightred"@.len());
        assert(b.len() != "brightgreen"@.len());
        assert(b.len() != "brightyellow"@.len());
        assert(b[6] != "brightblue"@[6]);
        assert(b.len() != "brightmagenta"@.len());
    }
    if i >= 1 {
        let b = "bright"@ + n;
        assert forall|k: int| 0 <= k < b.len() implies 'a' <= #[trigger] b[k] <= 'z' by {
            if k >= 6 {
                assert(b[k] == n[k - 6]);
            }
        }
        lemma_lower_name_folds(b);
    }
}

// ---------------------------------------------------------------------------
// Split flags
// ---------------------------------------------------------------------------

/// Whether every token of `f` is `-h` or `-v`.
pub open spec fn orientation_flags(f: Seq<Seq<char>>) -> bool {
    forall|k: int| 0 <= k < f.len() ==> #[trigger] f[k] == "-h"@ || f[k] == "-v"@
}

/// The orientation the last of some flags asks for: `-h` side by side,
/// `-v` (or none) stacked.
pub open spec fn last_flag_orientation(f: Seq<Seq<char>>, default: SplitOrientation) -> SplitOrientation {
    if f.len() == 0 {
        default
    } else if f.last() == "-h"@ {
        SplitOrientation::Vertical
    } else {
        SplitOrientation::Horizontal
    }
}

proof fn lemma_scan_flags(t: Seq<Seq<char>>, i: int, p: TargetView, title: Option<Seq<char>>, o: SplitOrientation)
    requires
        0 <= i <= t.len(),
        orientation_flags(t.skip(i)),
    ensures
        scan_split(t, i, p, title, o) == (p, title, last_flag_orientation(t.skip(i), o)),
    decreases t.len() - i,
{
    reveal_strlit("-h");
    reveal_strlit("-v");
    reveal_strlit("-t");
    reveal_strlit("-n");
    assert("-h"@[1] != "-t"@[1]);
    assert("-v"@[1] != "-t"@[1]);
    assert("-h"@[1] != "-n"@[1]);
    assert("-v"@[1] != "-n"@[1]);
    assert("-h"@[1] != "-v"@[1]);
    assert("-t"@[1] != "-h"@[1]);
    assert("-t"@[1] != "-v"@[1]);
    if i < t.len() {
        assert(t.skip(i)[0] == t[i]);
        let next = if t[i] == "-h"@ { SplitOrientation::Vertical } else { SplitOrientation::Horizontal };
        assert forall|k: int| 0 <= k < t.skip(i + 1).len() implies #[trigger] t.skip(i + 1)[k] == "-h"@ || t.skip(i + 1)[k]
            == "-v"@ by {
            assert(t.skip(i + 1)[k] == t.skip(i)[k + 1]);
        }
        lemma_scan_flags(t, i + 1, p, title, next);
        if t.skip(i + 1).len() > 0 {
            assert(t.skip(i + 1).last() == t.skip(i).last());
        } else {
            assert(t.skip(i).last() == t[i]);
        }
    }
}

/// In a split command, the last of the `-h` and `-v` flags decides the
/// orientation: `-h` side by side (vertical), `-v` stacked (horizontal),
/// and stacked when there is none; a target given after them is kept.
pub proof fn law_split_flags(t: Seq<Seq<char>>, f: Seq<Seq<char>>, x: Seq<char>)
    requires
        orientation_flags(f),
        t.len() >= 1,
    ensures
        scan_split(t + f, t.len() as int, crate::command::no_target(), None, SplitOrientation::Horizontal)
            == (crate::command::no_target(), Option::<Seq<char>>::None, last_flag_orientation(f, SplitOrientation::Horizontal)),
        scan_split(t + f + seq!["-t"@, x], t.len() as int, crate::command::no_target(), None, SplitOrientation::Horizontal).2
            == last_flag_orientation(f, SplitOrientation::Horizontal),
        scan_split(t + f + seq!["-t"@, x], t.len() as int, crate::command::no_target(), None, SplitOrientation::Horizontal).0
            == crate::command::tmux_target(x),
{
    let u = t + f;
    assert(u.skip(t.len() as int) =~= f);
    lemma_scan_flags(u, t.len() as int, crate::command::no_target(), None, SplitOrientation::Horizontal);
    let v = t + f + seq!["-t"@, x];
    assert(v.skip(t.len() as int).take(f.len() as int) =~= f);
    assert(v[(t.len() + f.len()) as int] == "-t"@);
    assert(v[(t.len() + f.len() + 1) as int] == x);
    lemma_scan_tail(v, t.len() as int, f, x);
}

proof fn lemma_scan_tail(v: Seq<Seq<char>>, i: int, f: Seq<Seq<char>>, x: Seq<char>)
    requires
        0 <= i,
        orientation_flags(f),
        v.len() == i + f.len() + 2,
        v.skip(i).take(f.len() as int) == f,
        v[i + f.len()] == "-t"@,
        v[i + f.len() + 1] == x,
    ensures
        forall|p: TargetView, o: SplitOrientation|
            #![trigger scan_split(v, i, p, None, o)]
            scan_split(v, i, p, None, o) == (crate::command::tmux_target(x), Option::<Seq<char>>::None, last_flag_orientation(f, o)),
    decreases f.len(),
{
    reveal_strlit("-h");
    reveal_strlit("-v");
    reveal_strlit("-t");
    reveal_strlit("-n");
    assert("-h"@[1] != "-t"@[1]);
    assert("-v"@[1] != "-t"@[1]);
    assert("-h"@[1] != "-n"@[1]);
    assert("-v"@[1] != "-n"@[1]);
    assert("-h"@[1] != "-v"@[1]);
    assert("-t"@[1] != "-h"@[1]);
    assert("-t"@[1] != "-v"@[1]);
    assert forall|p: TargetView, o: SplitOrientation|
        #![trigger scan_split(v, i, p, None, o)]
        scan_split(v, i, p, None, o) == (crate::command::tmux_target(x), Option::<Seq<char>>::None, last_flag_orientation(f, o)) by {
        if f.len() == 0 {
            assert(scan_split(v, i + 2, crate::command::tmux_target(x), None, o) == (
                crate::command::tmux_target(x),
                Option::<Seq<char>>::None,
                o,
            ));
        } else {
            assert(v[i] == v.skip(i).take(f.len() as int)[0]);
            assert(v[i] == f[0]);
            let f2 = f.drop_first();
            assert forall|k: int| 0 <= k < f2.len() implies #[trigger] f2[k] == "-h"@ || f2[k] == "-v"@ by {
                assert(f2[k] == f[k + 1]);
            }
            assert(v.skip(i + 1).take(f2.len() as int) =~= f2) by {
                assert forall|k: int| 0 <= k < f2.len() implies v.skip(i + 1).take(f2.len() as int)[k] == f2[k] by {
                    assert(v.skip(i).take(f.len() as int)[k + 1] == f[k + 1]);
                }
            }
            lemma_scan_tail(v, i + 1, f2, x);
            let next = if f[0] == "-h"@ { SplitOrientation::Vertical } else { SplitOrientation::Horizontal };
            assert(scan_split(v, i + 1, p, None, next) == (
                crate::command::tmux_target(x),
                Option::<Seq<char>>::None,
                last_flag_orientation(f2, next),
            ));
            if f2.len() > 0 {
                assert(f2.last() == f.last());
            }
        }
    }
}

// ---------------------------------------------------------------------------
// Yanking
// ---------------------------------------------------------------------------

/// A selection within one row yanks exactly the characters from the
/// earlier column to the later one, both included, whichever end the
/// anchor is.
pub proof fn law_yank_one_row(lines: Seq<Seq<char>>, row: usize, a: usize, c: usize)
    requires
        row < lines.len(),
        a < lines[row as int].len(),
        c < lines[row as int].len(),
    ensures
        yanked(lines, CopyModeState { cursor_row: row, cursor_col: c, anchor: Some((row, a)) }) == Some(
            lines[row as int].subrange(if a <= c { a as int } else { c as int }, if a <= c { c + 1 } else { a + 1 }),
        ),
{
    let lo = if a <= c { a } else { c };
    let hi = if a <= c { c } else { a };
    let last = if row < lines.len() - 1 { row as int } else { lines.len() - 1 };
    assert(last == row);
    let cs = lines[row as int];
    assert(yank_rows(lines, row, lo, row, hi, row as int + 1, last) == Seq::<char>::empty());
    let t = yank_rows(lines, row, lo, row, hi, row as int, last);
    assert(t =~= cs.subrange(lo as int, hi + 1));
    assert(t.len() > 0);
}

/// A selection over two neighbouring rows yanks the first row from the
/// earlier column to its end, a newline, and the second row from its start
/// to the later column, whichever end the anchor is.
pub proof fn law_yank_two_rows(lines: Seq<Seq<char>>, row: usize, a: usize, c: usize, anchor_first: bool)
    requires
        row < usize::MAX,
        row + 1 < lines.len(),
        a < lines[row as int].len(),
        c < lines[row + 1].len(),
    ensures
        ({
            let copy = if anchor_first {
                CopyModeState { cursor_row: (row + 1) as usize, cursor_col: c, anchor: Some((row, a)) }
            } else {
                CopyModeState { cursor_row: row, cursor_col: a, anchor: Some(((row + 1) as usize, c)) }
            };
            yanked(lines, copy) == Some(
                lines[row as int].subrange(a as int, lines[row as int].len() as int) + seq!['\n']
                    + lines[row + 1].subrange(0, c + 1),
            )
        }),
{
    let r2 = (row + 1) as usize;
    let last = if r2 < lines.len() - 1 { r2 as int } else { lines.len() - 1 };
    assert(last == r2);
    let c0 = lines[row as int];
    let c1 = lines[row + 1];
    assert(yank_rows(lines, row, a, r2, c, r2 as int + 1, last) == Seq::<char>::empty());
    let t1 = yank_rows(lines, row, a, r2, c, r2 as int, last);
    assert(t1 =~= c1.subrange(0, c + 1));
    let t0 = yank_rows(lines, row, a, r2, c, row as int, last);
    assert(t0 =~= c0.subrange(a as int, c0.len() as int) + seq!['\n'] + c1.subrange(0, c + 1));
    assert(t0.len() > 0);
}

} // verus!
