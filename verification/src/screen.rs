//! Where the client draws: pane sizes shared out along an axis, the
//! rectangles and borders of a split tree, and the box of a popup.
use vstd::prelude::*;
use crate::text::{chars_of, push_char, lit, append_str, views_of};
use crate::proto::{SplitNodeInfo, SplitOrientation};
use crate::terminal::{sat_sub, sat_add, min_of};

verus! {

// ---------------------------------------------------------------------------
// Sharing out an axis
// ---------------------------------------------------------------------------

/// The sum of some sizes.
pub open spec fn total_of(v: Seq<usize>) -> int
    decreases v.len(),
{
    if v.len() == 0 {
        0
    } else {
        total_of(v.drop_last()) + v.last()
    }
}

/// How many of the first `i` sizes are unset (zero).
pub open spec fn zeros_before(v: Seq<usize>, i: int) -> int
    decreases i,
{
    if i <= 0 || v.len() == 0 {
        0
    } else {
        zeros_before(v, i - 1) + if i - 1 < v.len() && v[i - 1] == 0 {
            1int
        } else {
            0int
        }
    }
}

/// The sizes with the unset ones filled: what is left of `total` after the
/// set sizes, shared evenly among the unset ones, the first ones taking one
/// more while the remainder lasts.
pub open spec fn filled(v: Seq<usize>, total: usize) -> Seq<int> {
    let z = zeros_before(v, v.len() as int);
    let rem = if total >= total_of(v) {
        total - total_of(v)
    } else {
        0
    };
    Seq::new(v.len(), |i: int| if v[i] == 0 {
        rem / z + if zeros_before(v, i) < rem % z {
            1int
        } else {
            0int
        }
    } else {
        v[i] as int
    })
}

/// The sum of some sizes.
pub open spec fn sum_int(v: Seq<int>) -> int
    decreases v.len(),
{
    if v.len() == 0 {
        0
    } else {
        sum_int(v.drop_last()) + v.last()
    }
}

/// The sizes that pane sizes `requested` (0 for "no preference") get along
/// an axis of `total` cells: unset sizes share what the set ones leave,
/// everything is scaled down where it overflows the axis, and a size that
/// ends at zero gets `min_slot` (at most the axis, at least one cell).
pub open spec fn slots(requested: Seq<usize>, total: usize, min_slot: usize) -> Seq<int> {
    if requested.len() == 0 {
        seq![total as int]
    } else {
        let f = filled(requested, total);
        let t = sum_int(f);
        Seq::new(requested.len(), |i: int| {
            let scaled = if t > total && t > 0 {
                f[i] * total / t
            } else {
                f[i]
            };
            if scaled == 0 {
                min_of(min_slot, if total >= 1 {
                    total
                } else {
                    1
                }) as int
            } else {
                scaled
            }
        })
    }
}

proof fn lemma_total_step(v: Seq<usize>, i: int)
    requires
        0 <= i < v.len(),
    ensures
        total_of(v.take(i + 1)) == total_of(v.take(i)) + v[i],
{
    assert(v.take(i + 1).drop_last() =~= v.take(i));
}

proof fn lemma_sum_step(v: Seq<int>, i: int)
    requires
        0 <= i < v.len(),
    ensures
        sum_int(v.take(i + 1)) == sum_int(v.take(i)) + v[i],
{
    assert(v.take(i + 1).drop_last() =~= v.take(i));
}

proof fn lemma_zeros_bound(v: Seq<usize>, i: int)
    requires
        0 <= i <= v.len(),
    ensures
        0 <= zeros_before(v, i) <= i,
    decreases i,
{
    if i > 0 {
        lemma_zeros_bound(v, i - 1);
    }
}

proof fn lemma_filled_sum(v: Seq<usize>, total: usize, i: int)
    requires
        0 <= i <= v.len(),
        zeros_before(v, v.len() as int) > 0,
    ensures
        sum_int(filled(v, total).take(i)) == total_of(v.take(i)) + zeros_before(v, i) * (
            (if total >= total_of(v) {
                total - total_of(v)
            } else {
                0
            }) / zeros_before(v, v.len() as int)) + min_int(
            zeros_before(v, i),
            (if total >= total_of(v) {
                total - total_of(v)
            } else {
                0
            }) % zeros_before(v, v.len() as int),
        ),
    decreases i,
{
    if i > 0 {
        lemma_filled_sum(v, total, i - 1);
        lemma_sum_step(filled(v, total), i - 1);
        lemma_total_step(v, i - 1);
        let rem = if total >= total_of(v) {
            total - total_of(v)
        } else {
            0
        };
        let z = zeros_before(v, v.len() as int);
        let k = zeros_before(v, i - 1);
        assert((k + 1) * (rem / z) == k * (rem / z) + rem / z) by (nonlinear_arith);
    }
}

/// The smaller of two integers.
pub open spec fn min_int(a: int, b: int) -> int {
    if a <= b {
        a
    } else {
        b
    }
}

proof fn lemma_total_prefix(v: Seq<usize>, i: int)
    requires
        0 <= i <= v.len(),
    ensures
        0 <= total_of(v.take(i)) <= total_of(v),
    decreases v.len() - i,
{
    if i < v.len() {
        lemma_total_step(v, i);
        lemma_total_prefix(v, i + 1);
        lemma_total_nonneg(v.take(i));
    } else {
        assert(v.take(i) =~= v);
        lemma_total_nonneg(v);
    }
}

proof fn lemma_total_nonneg(v: Seq<usize>)
    ensures
        total_of(v) >= 0,
    decreases v.len(),
{
    if v.len() > 0 {
        lemma_total_nonneg(v.drop_last());
    }
}

proof fn lemma_sum_prefix(f: Seq<int>, i: int)
    requires
        0 <= i <= f.len(),
        forall|k: int| 0 <= k < f.len() ==> #[trigger] f[k] >= 0,
    ensures
        0 <= sum_int(f.take(i)) <= sum_int(f),
    decreases f.len() - i,
{
    if i < f.len() {
        lemma_sum_step(f, i);
        lemma_sum_prefix(f, i + 1);
        assert forall|k: int| 0 <= k < f.take(i).len() implies #[trigger] f.take(i)[k] >= 0 by {
            assert(f.take(i)[k] == f[k]);
        }
        lemma_sum_nonneg(f.take(i));
    } else {
        assert(f.take(i) =~= f);
        lemma_sum_nonneg(f);
    }
}

proof fn lemma_sum_nonneg(f: Seq<int>)
    requires
        forall|k: int| 0 <= k < f.len() ==> #[trigger] f[k] >= 0,
    ensures
        sum_int(f) >= 0,
    decreases f.len(),
{
    if f.len() > 0 {
        lemma_sum_nonneg(f.drop_last());
    }
}

proof fn lemma_filled_total(v: Seq<usize>, total: usize)
    ensures
        forall|k: int| 0 <= k < v.len() ==> #[trigger] filled(v, total)[k] >= 0,
        sum_int(filled(v, total)) <= if total >= total_of(v) {
            total as int
        } else {
            total_of(v)
        },
{
    let z = zeros_before(v, v.len() as int);
    let rem = if total >= total_of(v) {
        total - total_of(v)
    } else {
        0
    };
    lemma_zeros_bound(v, v.len() as int);
    lemma_total_nonneg(v);
    if z > 0 {
        assert forall|k: int| 0 <= k < v.len() implies #[trigger] filled(v, total)[k] >= 0 by {
            if v[k] == 0 {
                assert(rem / z >= 0) by (nonlinear_arith)
                    requires
                        rem >= 0,
                        z > 0,
                ;
            }
        }
        lemma_filled_sum(v, total, v.len() as int);
        assert(v.take(v.len() as int) =~= v);
        assert(filled(v, total).take(v.len() as int) =~= filled(v, total));
        assert(z * (rem / z) + rem % z == rem) by (nonlinear_arith)
            requires
                z > 0,
        ;
        assert(rem % z < z) by (nonlinear_arith)
            requires
                z > 0,
        ;
    } else {
        assert forall|k: int| 0 <= k < v.len() implies #[trigger] filled(v, total)[k] >= 0 by {
            if v[k] == 0 {
                lemma_zero_counted(v, k);
            }
        }
        lemma_no_zeros_filled(v, total, v.len() as int);
        assert(v.take(v.len() as int) =~= v);
        assert(filled(v, total).take(v.len() as int) =~= filled(v, total));
    }
}

proof fn lemma_no_zeros_filled(v: Seq<usize>, total: usize, i: int)
    requires
        0 <= i <= v.len(),
        zeros_before(v, v.len() as int) == 0,
    ensures
        sum_int(filled(v, total).take(i)) == total_of(v.take(i)),
        zeros_before(v, i) == 0,
    decreases i,
{
    lemma_zeros_monotone(v, i, v.len() as int);
    if i > 0 {
        lemma_no_zeros_filled(v, total, i - 1);
        lemma_sum_step(filled(v, total), i - 1);
        lemma_total_step(v, i - 1);
        lemma_zeros_bound(v, i - 1);
    }
}

proof fn lemma_zero_counted(v: Seq<usize>, k: int)
    requires
        0 <= k < v.len(),
        v[k] == 0,
    ensures
        zeros_before(v, v.len() as int) >= 1,
{
    lemma_zeros_bound(v, k);
    lemma_zeros_monotone(v, k + 1, v.len() as int);
}

proof fn lemma_zeros_monotone(v: Seq<usize>, i: int, j: int)
    requires
        0 <= i <= j <= v.len(),
    ensures
        zeros_before(v, i) <= zeros_before(v, j),
    decreases j - i,
{
    if i < j {
        lemma_zeros_monotone(v, i, j - 1);
    }
}

/// The sizes that panes get along an axis of `total` cells.
pub fn distribute_slots(requested: &Vec<usize>, total: usize, min_slot: usize) -> (r: Vec<usize>)
    ensures
        r@.len() == slots(requested@, total, min_slot).len(),
        forall|i: int| 0 <= i < r@.len() ==> #[trigger] r@[i] as int == slots(requested@, total, min_slot)[i],
{
    let ghost v = requested@;
    if requested.len() == 0 {
        let mut one: Vec<usize> = Vec::new();
        one.push(total);
        return one;
    }
    let n = requested.len();
    let mut claimed: u128 = 0;
    let mut zeros: usize = 0;
    let mut i: usize = 0;
    while i < n
        invariant
            i <= n,
            n == requested.len(),
            v == requested@,
            claimed == total_of(v.take(i as int)),
            claimed <= i * 0xffff_ffff_ffff_ffffu128,
            zeros == zeros_before(v, i as int),
            zeros <= i,
        decreases n - i,
    {
        proof {
            lemma_total_step(v, i as int);
            assert(claimed + requested[i as int] <= (i + 1) * 0xffff_ffff_ffff_ffffu128) by (nonlinear_arith)
                requires
                    claimed <= i * 0xffff_ffff_ffff_ffffu128,
                    requested[i as int] <= 0xffff_ffff_ffff_ffffu128,
            ;
            assert((i + 1) * 0xffff_ffff_ffff_ffffu128 <= 0xffff_ffff_ffff_ffff_ffff_ffff_ffff_ffffu128) by (nonlinear_arith)
                requires
                    i < 0xffff_ffff_ffff_ffffu128,
            ;
        }
        claimed = claimed + requested[i] as u128;
        if requested[i] == 0 {
            zeros = zeros + 1;
        }
        i = i + 1;
    }
    proof {
        assert(v.take(n as int) =~= v);
        lemma_filled_total(v, total);
        lemma_total_nonneg(v);
    }
    let remaining: usize = if (total as u128) >= claimed {
        (total as u128 - claimed) as usize
    } else {
        0
    };
    let share = if zeros > 0 {
        remaining / zeros
    } else {
        0
    };
    let extra = if zeros > 0 {
        remaining % zeros
    } else {
        0
    };
    let ghost f = filled(v, total);
    let ghost cap: int = if total >= total_of(v) {
        total as int
    } else {
        total_of(v)
    };
    let mut out: Vec<usize> = Vec::new();
    let mut assigned: u128 = 0;
    let mut seen: usize = 0;
    let mut j: usize = 0;
    while j < n
        invariant
            j <= n,
            n == requested.len(),
            v == requested@,
            f == filled(v, total),
            claimed == total_of(v),
            claimed <= n * 0xffff_ffff_ffff_ffffu128,
            zeros == zeros_before(v, n as int),
            remaining == (if total >= total_of(v) {
                total - total_of(v)
            } else {
                0
            }),
            zeros > 0 ==> share as int == (remaining as int) / (zeros as int) && extra as int == (remaining as int) % (
            zeros as int),
            seen == zeros_before(v, j as int),
            out@.len() == j,
            forall|k: int| 0 <= k < j ==> #[trigger] out@[k] as int == f[k],
            assigned as int == sum_int(f.take(j as int)),
            forall|k: int| 0 <= k < v.len() ==> #[trigger] f[k] >= 0,
            sum_int(f) <= cap,
            cap <= n * 0xffff_ffff_ffff_ffffu128 || cap <= usize::MAX,
        decreases n - j,
    {
        proof {
            lemma_sum_step(f, j as int);
            lemma_sum_prefix(f, j + 1);
            lemma_sum_prefix(f, j as int);
            lemma_zeros_bound(v, j as int);
            assert(n * 0xffff_ffff_ffff_ffffu128 <= 0xffff_ffff_ffff_ffff_ffff_ffff_ffff_ffffu128) by (nonlinear_arith)
                requires
                    n <= 0xffff_ffff_ffff_ffffu128,
            ;
            if v[j as int] == 0 {
                lemma_zero_counted(v, j as int);
                if seen < extra {
                    assert((remaining as int) / (zeros as int) < remaining as int || remaining == 0) by (nonlinear_arith)
                        requires
                            zeros > 0,
                            (remaining as int) % (zeros as int) > 0,
                    ;
                    assert(share < usize::MAX);
                }
            }
        }
        let slot = if requested[j] == 0 {
            share + if seen < extra {
                1
            } else {
                0
            }
        } else {
            requested[j]
        };
        out.push(slot);
        assigned = assigned + slot as u128;
        if requested[j] == 0 {
            seen = seen + 1;
        }
        j = j + 1;
    }
    proof {
        assert(f.take(n as int) =~= f);
    }
    let t = assigned;
    let mut k: usize = 0;
    while k < n
        invariant
            k <= n,
            n == requested.len(),
            v == requested@,
            f == filled(v, total),
            t as int == sum_int(f),
            t <= 0xffff_ffff_ffff_ffff_ffff_ffff_ffff_ffffu128,
            out@.len() == n,
            forall|m: int| 0 <= m < k ==> #[trigger] out@[m] as int == slots(v, total, min_slot)[m],
            forall|m: int| k <= m < n ==> #[trigger] out@[m] as int == f[m],
        decreases n - k,
    {
        let mut slot = out[k];
        if t > total as u128 && t > 0 {
            let a: u128 = slot as u128;
            let b: u128 = total as u128;
            proof {
                assert(a * b <= 0xffff_ffff_ffff_ffff_ffff_ffff_ffff_ffffu128) by (nonlinear_arith)
                    requires
                        a <= 0xffff_ffff_ffff_ffffu128,
                        b <= 0xffff_ffff_ffff_ffffu128,
                ;
            }
            let wide: u128 = a * b;
            let c: u128 = t;
            proof {
                assert(wide / c <= a) by (nonlinear_arith)
                    requires
                        wide == a * b,
                        b < c,
                        c > 0,
                ;
            }
            slot = (wide / c) as usize;
        }
        if slot == 0 {
            let cap1 = if total >= 1 {
                total
            } else {
                1
            };
            slot = if min_slot <= cap1 {
                min_slot
            } else {
                cap1
            };
        }
        out.set(k, slot);
        k = k + 1;
    }
    out
}


// ---------------------------------------------------------------------------
// Split trees on screen
// ---------------------------------------------------------------------------

/// Where a pane is drawn.
#[derive(Debug, Clone, Copy, PartialEq, Eq, Structural)]
pub struct PaneRect {
    pub pane_id: u64,
    pub x: usize,
    pub y: usize,
    pub width: usize,
    pub height: usize,
}

/// Where the first part of a split ends along an axis of `len` cells: the
/// ratio (per mille, kept within 50..950) of the axis less the border,
/// and at least one cell on each side.
pub open spec fn first_part(len: usize, ratio: u16) -> usize {
    let axis = len - 1;
    let r = if ratio < 50 {
        50
    } else if ratio > 950 {
        950
    } else {
        ratio as int
    };
    let raw = axis * r / 1000;
    let hi = if axis >= 1 {
        axis - 1
    } else {
        0
    };
    (if raw < 1 {
        1
    } else if raw > hi {
        hi
    } else {
        raw
    }) as usize
}

/// The rectangles of the panes of a split tree drawn in the area at
/// `(x, y)`, `w` wide and `h` high; a border row or column separates the
/// parts of a split, and a split too small for one shows its first part
/// only.
pub open spec fn split_rects(node: SplitNodeInfo, x: usize, y: usize, w: usize, h: usize) -> Seq<PaneRect>
    decreases node,
{
    if w == 0 || h == 0 {
        seq![]
    } else {
        match node {
            SplitNodeInfo::Leaf { pane_id } => seq![PaneRect { pane_id, x, y, width: w, height: h }],
            SplitNodeInfo::Split { orientation, split_ratio, first, second } => match orientation {
                SplitOrientation::Horizontal => if h <= 2 {
                    split_rects(*first, x, y, w, h)
                } else {
                    let top = first_part(h, split_ratio);
                    split_rects(*first, x, y, w, top) + split_rects(
                        *second,
                        x,
                        (y + top + 1) as usize,
                        w,
                        (h - 1 - top) as usize,
                    )
                },
                SplitOrientation::Vertical => if w <= 2 {
                    split_rects(*first, x, y, w, h)
                } else {
                    let left = first_part(w, split_ratio);
                    split_rects(*first, x, y, left, h) + split_rects(
                        *second,
                        (x + left + 1) as usize,
                        y,
                        (w - 1 - left) as usize,
                        h,
                    )
                },
            },
        }
    }
}

/// A border between the parts of a split.
#[derive(Debug, Clone, Copy, PartialEq, Eq, Structural)]
pub enum Border {
    /// A row of `─` at `row`, from column `col`, `width` long.
    Row { row: usize, col: usize, width: usize },
    /// A column of `│` at `col`, from row `row`, `height` long.
    Column { col: usize, row: usize, height: usize },
}

/// The borders of a split tree drawn in an area, each split's own border
/// before those inside its parts.
pub open spec fn split_borders(node: SplitNodeInfo, x: usize, y: usize, w: usize, h: usize) -> Seq<Border>
    decreases node,
{
    if w == 0 || h == 0 {
        seq![]
    } else {
        match node {
            SplitNodeInfo::Leaf { .. } => seq![],
            SplitNodeInfo::Split { orientation, split_ratio, first, second } => match orientation {
                SplitOrientation::Horizontal => if h <= 2 {
                    seq![]
                } else {
                    let top = first_part(h, split_ratio);
                    seq![Border::Row { row: (y + top) as usize, col: x, width: w }] + split_borders(*first, x, y, w, top)
                        + split_borders(*second, x, (y + top + 1) as usize, w, (h - 1 - top) as usize)
                },
                SplitOrientation::Vertical => if w <= 2 {
                    seq![]
                } else {
                    let left = first_part(w, split_ratio);
                    seq![Border::Column { col: (x + left) as usize, row: y, height: h }] + split_borders(
                        *first,
                        x,
                        y,
                        left,
                        h,
                    ) + split_borders(*second, (x + left + 1) as usize, y, (w - 1 - left) as usize, h)
                },
            },
        }
    }
}

fn first_part_exec(len: usize, ratio: u16) -> (r: usize)
    requires
        len >= 3,
    ensures
        r == first_part(len, ratio),
        1 <= r <= len - 2,
{
    let axis = len - 1;
    let rr: u16 = if ratio < 50 {
        50
    } else if ratio > 950 {
        950
    } else {
        ratio
    };
    let a: u128 = axis as u128;
    let b: u128 = rr as u128;
    proof {
        assert(a * b <= 0xffff_ffff_ffff_ffffu128 * 950) by (nonlinear_arith)
            requires
                a <= 0xffff_ffff_ffff_ffffu128,
                b <= 950,
        ;
    }
    let raw128: u128 = a * b / 1000;
    proof {
        assert(raw128 <= a) by (nonlinear_arith)
            requires
                raw128 == a * b / 1000,
                b <= 950,
        ;
    }
    let raw = raw128 as usize;
    let hi = axis - 1;
    if raw < 1 {
        1
    } else if raw > hi {
        hi
    } else {
        raw
    }
}

/// The rectangles of the panes of a split tree drawn in an area.
pub fn build_split_rects(node: &SplitNodeInfo, x: usize, y: usize, width: usize, height: usize) -> (r: Vec<PaneRect>)
    requires
        x + width <= usize::MAX,
        y + height <= usize::MAX,
    ensures
        r@ == split_rects(*node, x, y, width, height),
    decreases node,
{
    if width == 0 || height == 0 {
        return Vec::new();
    }
    match node {
        SplitNodeInfo::Leaf { pane_id } => {
            let mut v: Vec<PaneRect> = Vec::new();
            v.push(PaneRect { pane_id: *pane_id, x, y, width, height });
            proof {
                assert(v@ =~= seq![PaneRect { pane_id: *pane_id, x, y, width, height }]);
            }
            v
        },
        SplitNodeInfo::Split { orientation, split_ratio, first, second } => match orientation {
            SplitOrientation::Horizontal => {
                if height <= 2 {
                    return build_split_rects(first, x, y, width, height);
                }
                let top = first_part_exec(height, *split_ratio);
                let mut a = build_split_rects(first, x, y, width, top);
                let mut b = build_split_rects(second, x, y + top + 1, width, height - 1 - top);
                a.append(&mut b);
                a
            },
            SplitOrientation::Vertical => {
                if width <= 2 {
                    return build_split_rects(first, x, y, width, height);
                }
                let left = first_part_exec(width, *split_ratio);
                let mut a = build_split_rects(first, x, y, left, height);
                let mut b = build_split_rects(second, x + left + 1, y, width - 1 - left, height);
                a.append(&mut b);
                a
            },
        },
    }
}

/// The borders of a split tree drawn in an area.
pub fn split_borders_exec(node: &SplitNodeInfo, x: usize, y: usize, width: usize, height: usize) -> (r: Vec<Border>)
    requires
        x + width <= usize::MAX,
        y + height <= usize::MAX,
    ensures
        r@ == split_borders(*node, x, y, width, height),
    decreases node,
{
    if width == 0 || height == 0 {
        return Vec::new();
    }
    match node {
        SplitNodeInfo::Leaf { .. } => Vec::new(),
        SplitNodeInfo::Split { orientation, split_ratio, first, second } => match orientation {
            SplitOrientation::Horizontal => {
                if height <= 2 {
                    return Vec::new();
                }
                let top = first_part_exec(height, *split_ratio);
                let mut v: Vec<Border> = Vec::new();
                v.push(Border::Row { row: y + top, col: x, width });
                let mut a = split_borders_exec(first, x, y, width, top);
                let mut b = split_borders_exec(second, x, y + top + 1, width, height - 1 - top);
                v.append(&mut a);
                v.append(&mut b);
                v
            },
            SplitOrientation::Vertical => {
                if width <= 2 {
                    return Vec::new();
                }
                let left = first_part_exec(width, *split_ratio);
                let mut v: Vec<Border> = Vec::new();
                v.push(Border::Column { col: x + left, row: y, height });
                let mut a = split_borders_exec(first, x, y, left, height);
                let mut b = split_borders_exec(second, x + left + 1, y, width - 1 - left, height);
                v.append(&mut a);
                v.append(&mut b);
                v
            },
        },
    }
}
} // verus!
