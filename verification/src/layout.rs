//! Split trees: how the panes of a window share its area, the preset
//! layouts that build them, and the edits that splitting, killing, swapping,
//! rotating and resizing panes make to them.
use vstd::prelude::*;
use crate::text::{str_eq, first_index, equals, lemma_first_index_concat, lemma_first_index};

verus! {

/// The direction in which a window's panes are stacked: `Horizontal` stacks
/// them top to bottom, `Vertical` places them side by side.
#[derive(Debug, Clone, Copy, PartialEq, Eq, Structural, Default)]
pub enum WindowLayout {
    #[default]
    Horizontal,
    Vertical,
}

/// The preset layouts that `select-layout` and the layout cycle offer.
#[derive(Debug, Clone, Copy, PartialEq, Eq, Structural, Default)]
pub enum PresetLayout {
    #[default]
    EvenHorizontal,
    EvenVertical,
    MainHorizontal,
    MainVertical,
    Tiled,
}

/// The preset layout that a name (long or short form) designates.
pub open spec fn preset_from_name(s: Seq<char>) -> Option<PresetLayout> {
    if s == "even-horizontal"@ || s == "eh"@ {
        Some(PresetLayout::EvenHorizontal)
    } else if s == "even-vertical"@ || s == "ev"@ {
        Some(PresetLayout::EvenVertical)
    } else if s == "main-horizontal"@ || s == "mh"@ {
        Some(PresetLayout::MainHorizontal)
    } else if s == "main-vertical"@ || s == "mv"@ {
        Some(PresetLayout::MainVertical)
    } else if s == "tiled"@ {
        Some(PresetLayout::Tiled)
    } else {
        None
    }
}

/// The long name of a preset layout.
pub open spec fn preset_name(p: PresetLayout) -> Seq<char> {
    match p {
        PresetLayout::EvenHorizontal => "even-horizontal"@,
        PresetLayout::EvenVertical => "even-vertical"@,
        PresetLayout::MainHorizontal => "main-horizontal"@,
        PresetLayout::MainVertical => "main-vertical"@,
        PresetLayout::Tiled => "tiled"@,
    }
}

impl PresetLayout {
    /// The preset layout named `s`, in long form (`even-horizontal`) or short
    /// form (`eh`); `tiled` has no short form.
    pub fn parse(s: &str) -> (r: Option<Self>)
        ensures
            r == preset_from_name(s@),
    {
        if str_eq(s, "even-horizontal") || str_eq(s, "eh") {
            Some(Self::EvenHorizontal)
        } else if str_eq(s, "even-vertical") || str_eq(s, "ev") {
            Some(Self::EvenVertical)
        } else if str_eq(s, "main-horizontal") || str_eq(s, "mh") {
            Some(Self::MainHorizontal)
        } else if str_eq(s, "main-vertical") || str_eq(s, "mv") {
            Some(Self::MainVertical)
        } else if str_eq(s, "tiled") {
            Some(Self::Tiled)
        } else {
            None
        }
    }

    /// The long name of the layout.
    pub fn as_str(&self) -> (r: &'static str)
        ensures
            r@ == preset_name(*self),
    {
        match self {
            Self::EvenHorizontal => "even-horizontal",
            Self::EvenVertical => "even-vertical",
            Self::MainHorizontal => "main-horizontal",
            Self::MainVertical => "main-vertical",
            Self::Tiled => "tiled",
        }
    }
}

/// Parsing the name of a preset layout gives that layout back.
pub proof fn law_preset_name_round_trip(p: PresetLayout)
    ensures
        preset_from_name(preset_name(p)) == Some(p),
{
    reveal_strlit("even-horizontal");
    reveal_strlit("eh");
    reveal_strlit("even-vertical");
    reveal_strlit("ev");
    reveal_strlit("main-horizontal");
    reveal_strlit("mh");
    reveal_strlit("main-vertical");
    reveal_strlit("mv");
    reveal_strlit("tiled");
    let n = preset_name(p);
    match p {
        PresetLayout::EvenHorizontal => {},
        PresetLayout::EvenVertical => {
            assert(n.len() != "even-horizontal"@.len());
            assert(n.len() != "eh"@.len());
        },
        PresetLayout::MainHorizontal => {
            assert(n[0] != "even-horizontal"@[0]);
            assert(n.len() != "eh"@.len());
            assert(n.len() != "even-vertical"@.len());
            assert(n.len() != "ev"@.len());
        },
        PresetLayout::MainVertical => {
            assert(n.len() != "even-horizontal"@.len());
            assert(n.len() != "eh"@.len());
            assert(n[0] != "even-vertical"@[0]);
            assert(n.len() != "ev"@.len());
            assert(n.len() != "main-horizontal"@.len());
            assert(n.len() != "mh"@.len());
        },
        PresetLayout::Tiled => {
            assert(n.len() != "even-horizontal"@.len());
            assert(n.len() != "eh"@.len());
            assert(n.len() != "even-vertical"@.len());
            assert(n.len() != "ev"@.len());
            assert(n.len() != "main-horizontal"@.len());
            assert(n.len() != "mh"@.len());
            assert(n.len() != "main-vertical"@.len());
            assert(n.len() != "mv"@.len());
        },
    }
}

/// A window's split tree: a leaf shows one pane; a split divides its area
/// between two subtrees along `orientation`, giving the first subtree
/// `split_ratio` thousandths of it.
#[derive(Debug)]
pub enum SplitNode {
    Leaf { pane_id: u64 },
    Split {
        orientation: WindowLayout,
        split_ratio: u16,
        first: Box<SplitNode>,
        second: Box<SplitNode>,
    },
}

/// A copy of a split tree.
pub fn clone_node(n: &SplitNode) -> (r: SplitNode)
    ensures
        r == *n,
    decreases n,
{
    match n {
        SplitNode::Leaf { pane_id } => SplitNode::Leaf { pane_id: *pane_id },
        SplitNode::Split { orientation, split_ratio, first, second } => {
            let f = clone_node(first);
            let s = clone_node(second);
            SplitNode::Split {
                orientation: *orientation,
                split_ratio: *split_ratio,
                first: Box::new(f),
                second: Box::new(s),
            }
        },
    }
}

impl Clone for SplitNode {
    fn clone(&self) -> (r: Self)
        ensures
            r == *self,
    {
        clone_node(self)
    }
}

/// A copy of an optional split tree.
pub fn clone_tree(t: &Option<SplitNode>) -> (r: Option<SplitNode>)
    ensures
        r == *t,
{
    match t {
        Some(n) => Some(clone_node(n)),
        None => None,
    }
}

/// The ratio that a new split gets.
pub open spec fn spec_default_split_ratio() -> u16 {
    500
}

/// The ratio that a new split gets: an even split.
pub fn default_split_ratio() -> (r: u16)
    ensures
        r == spec_default_split_ratio(),
{
    500
}

/// The smallest size, in cells, that a pane may have along either axis.
pub const MIN_PANE_AXIS_SIZE: usize = 3;

/// The direction in which a pane grows or shrinks.
#[derive(Debug, Clone, Copy, PartialEq, Eq, Structural)]
pub enum ResizeDirection {
    Up,
    Down,
    Left,
    Right,
}

/// The pane ids of the leaves of a tree, left to right.
pub open spec fn leaves(n: SplitNode) -> Seq<u64>
    decreases n,
{
    match n {
        SplitNode::Leaf { pane_id } => seq![pane_id],
        SplitNode::Split { first, second, .. } => leaves(*first) + leaves(*second),
    }
}

/// The pane ids of the leaves of an optional tree (none for no tree).
pub open spec fn tree_leaves(t: Option<SplitNode>) -> Seq<u64> {
    match t {
        Some(n) => leaves(n),
        None => seq![],
    }
}

/// A split of a leaf into that leaf and a new one.
pub open spec fn split_of(orientation: WindowLayout, target: u64, new_id: u64) -> SplitNode {
    SplitNode::Split {
        orientation,
        split_ratio: spec_default_split_ratio(),
        first: Box::new(SplitNode::Leaf { pane_id: target }),
        second: Box::new(SplitNode::Leaf { pane_id: new_id }),
    }
}

/// The first leaf (left to right) that shows `target` becomes a split of
/// that leaf and a new leaf for `new_id`; the flag tells whether there was
/// such a leaf.
pub open spec fn spec_split_leaf(n: SplitNode, target: u64, new_id: u64, orientation: WindowLayout) -> (
    SplitNode,
    bool,
)
    decreases n,
{
    match n {
        SplitNode::Leaf { pane_id } => if pane_id == target {
            (split_of(orientation, target, new_id), true)
        } else {
            (n, false)
        },
        SplitNode::Split { orientation: o, split_ratio, first, second } => {
            let (f2, found) = spec_split_leaf(*first, target, new_id, orientation);
            if found {
                (SplitNode::Split { orientation: o, split_ratio, first: Box::new(f2), second }, true)
            } else {
                let (s2, found2) = spec_split_leaf(*second, target, new_id, orientation);
                (SplitNode::Split { orientation: o, split_ratio, first, second: Box::new(s2) }, found2)
            }
        },
    }
}

fn split_leaf_owned(n: SplitNode, target: u64, new_id: u64, orientation: WindowLayout) -> (r: (
    SplitNode,
    bool,
))
    ensures
        r == spec_split_leaf(n, target, new_id, orientation),
    decreases n,
{
    match n {
        SplitNode::Leaf { pane_id } => {
            if pane_id == target {
                (
                    SplitNode::Split {
                        orientation,
                        split_ratio: default_split_ratio(),
                        first: Box::new(SplitNode::Leaf { pane_id: target }),
                        second: Box::new(SplitNode::Leaf { pane_id: new_id }),
                    },
                    true,
                )
            } else {
                (SplitNode::Leaf { pane_id }, false)
            }
        },
        SplitNode::Split { orientation: o, split_ratio, first, second } => {
            let (f2, found) = split_leaf_owned(*first, target, new_id, orientation);
            if found {
                (SplitNode::Split { orientation: o, split_ratio, first: Box::new(f2), second }, true)
            } else {
                proof {
                    law_split_leaf_leaves(*first, target, new_id, orientation);
                }
                let (s2, found2) = split_leaf_owned(*second, target, new_id, orientation);
                (
                    SplitNode::Split { orientation: o, split_ratio, first: Box::new(f2), second: Box::new(s2) },
                    found2,
                )
            }
        },
    }
}

/// Splits the first leaf that shows `target_pane_id`, putting `new_pane_id`
/// after it.
pub fn split_leaf(
    node: &mut SplitNode,
    target_pane_id: u64,
    new_pane_id: u64,
    orientation: WindowLayout,
) -> (r: bool)
    ensures
        (*final(node), r) == spec_split_leaf(*old(node), target_pane_id, new_pane_id, orientation),
{
    let mut tmp = SplitNode::Leaf { pane_id: 0 };
    std::mem::swap(node, &mut tmp);
    let (n2, found) = split_leaf_owned(tmp, target_pane_id, new_pane_id, orientation);
    *node = n2;
    found
}

/// Splitting a leaf puts the new pane right after the first leaf that shows
/// the target, and changes nothing when no leaf shows it.
pub proof fn law_split_leaf_leaves(n: SplitNode, target: u64, new_id: u64, orientation: WindowLayout)
    ensures
        ({
            let (m, found) = spec_split_leaf(n, target, new_id, orientation);
            &&& found == (first_index(leaves(n), equals(target)) is Some)
            &&& found ==> leaves(m) == leaves(n).insert(
                first_index(leaves(n), equals(target))->0 + 1,
                new_id,
            )
            &&& !found ==> m == n
        }),
    decreases n,
{
    match n {
        SplitNode::Leaf { pane_id } => {
            assert(leaves(n).drop_first() =~= Seq::<u64>::empty());
            assert(first_index(Seq::<u64>::empty(), equals(target)) is None);
            if pane_id == target {
                let (m, found) = spec_split_leaf(n, target, new_id, orientation);
                assert(leaves(SplitNode::Leaf { pane_id: target }) == seq![target]);
                assert(leaves(SplitNode::Leaf { pane_id: new_id }) == seq![new_id]);
                leaves(n).insert_ensures(1, new_id);
                assert(leaves(m) =~= leaves(n).insert(1, new_id));
            }
        },
        SplitNode::Split { orientation: o, split_ratio, first, second } => {
            law_split_leaf_leaves(*first, target, new_id, orientation);
            law_split_leaf_leaves(*second, target, new_id, orientation);
            let lf = leaves(*first);
            let ls = leaves(*second);
            lemma_first_index_concat(lf, ls, equals(target));
            lemma_first_index(lf, equals(target));
            lemma_first_index(ls, equals(target));
            let (f2, found) = spec_split_leaf(*first, target, new_id, orientation);
            if found {
                let i = first_index(lf, equals(target))->0;
                lf.insert_ensures(i + 1, new_id);
                (lf + ls).insert_ensures(i + 1, new_id);
                assert(leaves(f2) + ls =~= (lf + ls).insert(i + 1, new_id));
            } else {
                let (s2, found2) = spec_split_leaf(*second, target, new_id, orientation);
                if found2 {
                    let i = first_index(ls, equals(target))->0;
                    ls.insert_ensures(i + 1, new_id);
                    (lf + ls).insert_ensures(lf.len() + i + 1, new_id);
                    assert(lf + leaves(s2) =~= (lf + ls).insert(lf.len() + i + 1, new_id));
                }
            }
        },
    }
}

/// Membership in a concatenation.
pub proof fn lemma_contains_concat(a: Seq<u64>, b: Seq<u64>, x: u64)
    ensures
        (a + b).contains(x) == (a.contains(x) || b.contains(x)),
{
    if (a + b).contains(x) {
        let k = choose|k: int| 0 <= k < (a + b).len() && (a + b)[k] == x;
        if k < a.len() {
            assert(a[k] == x);
        } else {
            assert(b[k - a.len()] == x);
        }
    }
    if a.contains(x) {
        let k = choose|k: int| 0 <= k < a.len() && a[k] == x;
        assert((a + b)[k] == x);
    }
    if b.contains(x) {
        let k = choose|k: int| 0 <= k < b.len() && b[k] == x;
        assert((a + b)[a.len() + k] == x);
    }
}

/// The tree without the leaves that show `pane_id`; a split that loses one
/// side is replaced by its other side.
pub open spec fn spec_remove_leaf(n: SplitNode, pane_id: u64) -> Option<SplitNode>
    decreases n,
{
    match n {
        SplitNode::Leaf { pane_id: id } => if id == pane_id {
            None
        } else {
            Some(n)
        },
        SplitNode::Split { orientation, split_ratio, first, second } => {
            let l = spec_remove_leaf(*first, pane_id);
            let r = spec_remove_leaf(*second, pane_id);
            match (l, r) {
                (None, None) => None,
                (Some(x), None) => Some(x),
                (None, Some(x)) => Some(x),
                (Some(x), Some(y)) => Some(
                    SplitNode::Split { orientation, split_ratio, first: Box::new(x), second: Box::new(y) },
                ),
            }
        },
    }
}

/// Removes the leaves that show `pane_id` from a tree.
pub fn remove_leaf(node: SplitNode, pane_id: u64) -> (r: Option<SplitNode>)
    ensures
        r == spec_remove_leaf(node, pane_id),
    decreases node,
{
    match node {
        SplitNode::Leaf { pane_id: id } => {
            if id == pane_id {
                None
            } else {
                Some(SplitNode::Leaf { pane_id: id })
            }
        },
        SplitNode::Split { orientation, split_ratio, first, second } => {
            let left = remove_leaf(*first, pane_id);
            let right = remove_leaf(*second, pane_id);
            match (left, right) {
                (None, None) => None,
                (Some(node), None) => Some(node),
                (None, Some(node)) => Some(node),
                (Some(left), Some(right)) => Some(
                    SplitNode::Split {
                        orientation,
                        split_ratio,
                        first: Box::new(left),
                        second: Box::new(right),
                    },
                ),
            }
        },
    }
}

/// The ids of `s` other than `x`, in order.
pub open spec fn without(s: Seq<u64>, x: u64) -> Seq<u64> {
    s.filter(other_than(x))
}

/// The predicate "is not `x`".
pub open spec fn other_than(x: u64) -> spec_fn(u64) -> bool {
    |y: u64| y != x
}

/// Removing a pane's leaves leaves exactly the other panes, in order; no
/// tree remains when no other pane does.
pub proof fn law_remove_leaf_leaves(n: SplitNode, pane_id: u64)
    ensures
        tree_leaves(spec_remove_leaf(n, pane_id)) == without(leaves(n), pane_id),
    decreases n,
{
    reveal(Seq::filter);
    match n {
        SplitNode::Leaf { pane_id: id } => {
            assert(seq![id].drop_last() =~= Seq::<u64>::empty());
            assert(Seq::<u64>::empty().filter(other_than(pane_id)) =~= Seq::<u64>::empty());
            assert(other_than(pane_id)(id) == (id != pane_id));
            assert(without(seq![id], pane_id) =~= if id == pane_id {
                Seq::<u64>::empty()
            } else {
                seq![id]
            });
        },
        SplitNode::Split { orientation, split_ratio, first, second } => {
            law_remove_leaf_leaves(*first, pane_id);
            law_remove_leaf_leaves(*second, pane_id);
            Seq::<u64>::filter_distributes_over_add(leaves(*first), leaves(*second), other_than(pane_id));
        },
    }
}

/// The tree with every leaf that shows `a` showing `b` and every leaf that
/// shows `b` showing `a`.
pub open spec fn spec_swap_ids(n: SplitNode, a: u64, b: u64) -> SplitNode
    decreases n,
{
    match n {
        SplitNode::Leaf { pane_id } => if pane_id == a {
            SplitNode::Leaf { pane_id: b }
        } else if pane_id == b {
            SplitNode::Leaf { pane_id: a }
        } else {
            n
        },
        SplitNode::Split { orientation, split_ratio, first, second } => SplitNode::Split {
            orientation,
            split_ratio,
            first: Box::new(spec_swap_ids(*first, a, b)),
            second: Box::new(spec_swap_ids(*second, a, b)),
        },
    }
}

/// `x` with `a` and `b` exchanged.
pub open spec fn swap_id(x: u64, a: u64, b: u64) -> u64 {
    if x == a {
        b
    } else if x == b {
        a
    } else {
        x
    }
}

fn swap_walk(node: &mut SplitNode, pane_a: u64, pane_b: u64, found_a: &mut bool, found_b: &mut bool)
    ensures
        *final(node) == spec_swap_ids(*old(node), pane_a, pane_b),
        *final(found_a) == (*old(found_a) || leaves(*old(node)).contains(pane_a)),
        *final(found_b) == (*old(found_b) || (pane_a != pane_b && leaves(*old(node)).contains(pane_b))),
    decreases *old(node),
{
    let ghost n0 = *node;
    match node {
        SplitNode::Leaf { pane_id } => {
            proof {
                assert(leaves(n0)[0] == *pane_id);
                assert(leaves(n0).contains(pane_a) == (*pane_id == pane_a));
                assert(leaves(n0).contains(pane_b) == (*pane_id == pane_b));
            }
            if *pane_id == pane_a {
                *pane_id = pane_b;
                *found_a = true;
            } else if *pane_id == pane_b {
                *pane_id = pane_a;
                *found_b = true;
            }
        },
        SplitNode::Split { first, second, .. } => {
            let ghost f0 = **first;
            let ghost s0 = **second;
            swap_walk(first, pane_a, pane_b, found_a, found_b);
            swap_walk(second, pane_a, pane_b, found_a, found_b);
            proof {
                lemma_contains_concat(leaves(f0), leaves(s0), pane_a);
                lemma_contains_concat(leaves(f0), leaves(s0), pane_b);
            }
        },
    }
}

/// Exchanges the panes `pane_a` and `pane_b` in a tree; true when both
/// (distinct) panes were found.
pub fn swap_leaf_panes(node: &mut SplitNode, pane_a: u64, pane_b: u64) -> (r: bool)
    ensures
        *final(node) == spec_swap_ids(*old(node), pane_a, pane_b),
        r == (pane_a != pane_b && leaves(*old(node)).contains(pane_a) && leaves(*old(node)).contains(
            pane_b,
        )),
{
    let mut found_a = false;
    let mut found_b = false;
    swap_walk(node, pane_a, pane_b, &mut found_a, &mut found_b);
    found_a && found_b
}

/// Swapping two ids swaps them in the leaf order and touches nothing else.
pub proof fn law_swap_ids_leaves(n: SplitNode, a: u64, b: u64)
    ensures
        leaves(spec_swap_ids(n, a, b)) == leaves(n).map_values(|x: u64| swap_id(x, a, b)),
    decreases n,
{
    match n {
        SplitNode::Leaf { pane_id } => {
            assert(leaves(spec_swap_ids(n, a, b)) =~= leaves(n).map_values(|x: u64| swap_id(x, a, b)));
        },
        SplitNode::Split { first, second, .. } => {
            law_swap_ids_leaves(*first, a, b);
            law_swap_ids_leaves(*second, a, b);
            assert(leaves(spec_swap_ids(n, a, b)) =~= leaves(n).map_values(|x: u64| swap_id(x, a, b)));
        },
    }
}

/// Appends the leaves of a tree, left to right, to `out`.
pub fn collect_leaf_ids(node: &SplitNode, out: &mut Vec<u64>)
    ensures
        final(out)@ == old(out)@ + leaves(*node),
    decreases node,
{
    match node {
        SplitNode::Leaf { pane_id } => {
            out.push(*pane_id);
            proof {
                assert(final(out)@ =~= old(out)@ + leaves(*node));
            }
        },
        SplitNode::Split { first, second, .. } => {
            collect_leaf_ids(first, out);
            collect_leaf_ids(second, out);
            proof {
                assert(final(out)@ =~= old(out)@ + leaves(*node));
            }
        },
    }
}

/// Gives the leaves of a tree, left to right, the ids `ids[pos..]`; stops at
/// the first leaf for which no id is left.  Yields the new tree, the next
/// position and whether every leaf got an id.
pub open spec fn spec_assign(n: SplitNode, ids: Seq<u64>, pos: int) -> (SplitNode, int, bool)
    decreases n,
{
    match n {
        SplitNode::Leaf { pane_id } => if pos < ids.len() {
            (SplitNode::Leaf { pane_id: ids[pos] }, pos + 1, true)
        } else {
            (n, pos, false)
        },
        SplitNode::Split { orientation, split_ratio, first, second } => {
            let (f2, p1, ok1) = spec_assign(*first, ids, pos);
            if !ok1 {
                (SplitNode::Split { orientation, split_ratio, first: Box::new(f2), second }, p1, false)
            } else {
                let (s2, p2, ok2) = spec_assign(*second, ids, p1);
                (
                    SplitNode::Split { orientation, split_ratio, first: Box::new(f2), second: Box::new(s2) },
                    p2,
                    ok2,
                )
            }
        },
    }
}

/// Gives the leaves of a tree the ids `ids[*pos..]`, advancing `*pos`.
pub fn assign_leaf_ids(node: &mut SplitNode, ids: &Vec<u64>, pos: &mut usize) -> (r: bool)
    requires
        *old(pos) <= ids.len(),
    ensures
        (*final(node), *final(pos) as int, r) == spec_assign(*old(node), ids@, *old(pos) as int),
        *final(pos) <= ids.len(),
    decreases *old(node),
{
    match node {
        SplitNode::Leaf { pane_id } => {
            if *pos < ids.len() {
                *pane_id = ids[*pos];
                *pos = *pos + 1;
                true
            } else {
                false
            }
        },
        SplitNode::Split { first, second, .. } => {
            if assign_leaf_ids(first, ids, pos) {
                assign_leaf_ids(second, ids, pos)
            } else {
                false
            }
        },
    }
}

/// Giving a tree's leaves the ids they already have leaves it as it is.
pub proof fn lemma_assign_own_leaves(n: SplitNode, ids: Seq<u64>, pos: int)
    requires
        0 <= pos,
        pos + leaves(n).len() <= ids.len(),
        forall|k: int| 0 <= k < leaves(n).len() ==> ids[pos + k] == #[trigger] leaves(n)[k],
    ensures
        spec_assign(n, ids, pos).0 == n,
    decreases n,
{
    match n {
        SplitNode::Leaf { pane_id } => {
            assert(leaves(n)[0] == pane_id);
        },
        SplitNode::Split { first, second, .. } => {
            let lf = leaves(*first);
            let ls = leaves(*second);
            assert(leaves(n) == lf + ls);
            assert forall|k: int| 0 <= k < lf.len() implies ids[pos + k] == #[trigger] lf[k] by {
                assert(leaves(n)[k] == lf[k]);
            }
            lemma_assign_own_leaves(*first, ids, pos);
            law_assign_leaves(*first, ids, pos);
            let p1 = pos + lf.len();
            assert forall|k: int| 0 <= k < ls.len() implies ids[p1 + k] == #[trigger] ls[k] by {
                assert(leaves(n)[lf.len() + k] == ls[k]);
            }
            lemma_assign_own_leaves(*second, ids, p1);
        },
    }
}

/// Giving a tree's leaves ids twice is the same as giving them the second
/// ids at once: the first ids leave no trace.
pub proof fn lemma_assign_twice(n: SplitNode, a: Seq<u64>, pos: int, b: Seq<u64>, q: int)
    requires
        0 <= pos,
        0 <= q,
        pos + leaves(n).len() <= a.len(),
        q + leaves(n).len() <= b.len(),
    ensures
        spec_assign(spec_assign(n, a, pos).0, b, q).0 == spec_assign(n, b, q).0,
    decreases n,
{
    match n {
        SplitNode::Leaf { .. } => {},
        SplitNode::Split { first, second, .. } => {
            law_assign_leaves(*first, a, pos);
            law_assign_leaves(*second, a, pos + leaves(*first).len());
            law_assign_leaves(*first, b, q);
            let (f2, p1, ok1) = spec_assign(*first, a, pos);
            let (s2, p2, ok2) = spec_assign(*second, a, p1);
            law_assign_leaves(f2, b, q);
            lemma_assign_twice(*first, a, pos, b, q);
            lemma_assign_twice(*second, a, p1, b, q + leaves(*first).len());
            assert(leaves(f2).len() == leaves(*first).len());
        },
    }
}

/// Given enough ids, every leaf gets one: the leaves become exactly the
/// next ids in order, and the tree keeps its shape.
pub proof fn law_assign_leaves(n: SplitNode, ids: Seq<u64>, pos: int)
    requires
        0 <= pos,
        pos + leaves(n).len() <= ids.len(),
    ensures
        ({
            let (m, p, ok) = spec_assign(n, ids, pos);
            &&& ok
            &&& p == pos + leaves(n).len()
            &&& leaves(m) == ids.subrange(pos, p)
        }),
    decreases n,
{
    match n {
        SplitNode::Leaf { pane_id } => {
            let (m, p, ok) = spec_assign(n, ids, pos);
            assert(leaves(m) =~= ids.subrange(pos, p));
        },
        SplitNode::Split { first, second, .. } => {
            law_assign_leaves(*first, ids, pos);
            let (f2, p1, ok1) = spec_assign(*first, ids, pos);
            law_assign_leaves(*second, ids, p1);
            let (m, p, ok) = spec_assign(n, ids, pos);
            assert(leaves(m) =~= ids.subrange(pos, p));
        },
    }
}

/// Whether some leaf of the tree shows `pane_id`.
pub fn tree_contains_pane(node: &SplitNode, pane_id: u64) -> (r: bool)
    ensures
        r == leaves(*node).contains(pane_id),
    decreases node,
{
    match node {
        SplitNode::Leaf { pane_id: id } => {
            proof {
                assert(leaves(*node)[0] == *id);
                assert(leaves(*node).contains(pane_id) == (*id == pane_id));
            }
            *id == pane_id
        },
        SplitNode::Split { first, second, .. } => {
            proof {
                lemma_contains_concat(leaves(**first), leaves(**second), pane_id);
            }
            tree_contains_pane(first, pane_id) || tree_contains_pane(second, pane_id)
        },
    }
}

/// `a + b`, saturating at `usize::MAX`.
pub open spec fn sat_add(a: int, b: int) -> int {
    if a + b > usize::MAX {
        usize::MAX as int
    } else {
        a + b
    }
}

/// The least extent, along `axis`, that a tree needs: three cells per pane,
/// plus one cell per border between panes stacked along `axis`.
pub open spec fn spec_min_axis(n: SplitNode, axis: WindowLayout) -> int
    decreases n,
{
    match n {
        SplitNode::Leaf { .. } => MIN_PANE_AXIS_SIZE as int,
        SplitNode::Split { orientation, first, second, .. } => {
            let a = spec_min_axis(*first, axis);
            let b = spec_min_axis(*second, axis);
            if orientation == axis {
                sat_add(sat_add(a, b), 1)
            } else if a >= b {
                a
            } else {
                b
            }
        },
    }
}

/// The least extent, along `axis`, that a tree needs.
pub fn min_axis_for_node(node: &SplitNode, axis: WindowLayout) -> (r: usize)
    ensures
        r as int == spec_min_axis(*node, axis),
    decreases node,
{
    match node {
        SplitNode::Leaf { .. } => MIN_PANE_AXIS_SIZE,
        SplitNode::Split { orientation, first, second, .. } => {
            let a = min_axis_for_node(first, axis);
            let b = min_axis_for_node(second, axis);
            if *orientation == axis {
                a.saturating_add(b).saturating_add(1)
            } else if a >= b {
                a
            } else {
                b
            }
        },
    }
}

/// The least extent of a tree is at least that of each subtree.
pub proof fn lemma_min_axis_children(n: SplitNode, axis: WindowLayout)
    ensures
        n matches SplitNode::Split { first, second, .. } ==> spec_min_axis(*first, axis) <= spec_min_axis(
            n,
            axis,
        ) && spec_min_axis(*second, axis) <= spec_min_axis(n, axis),
        spec_min_axis(n, axis) >= 3,
        spec_min_axis(n, axis) <= usize::MAX,
    decreases n,
{
    match n {
        SplitNode::Leaf { .. } => {},
        SplitNode::Split { first, second, .. } => {
            lemma_min_axis_children(*first, axis);
            lemma_min_axis_children(*second, axis);
        },
    }
}

/// The largest least-extent for which the resize arithmetic stays within
/// `i32`.
pub open spec fn resize_bound() -> int {
    2_147_483
}

/// Whether the resize arithmetic on a tree stays within `i32`: the tree's
/// least extent along either axis is at most `resize_bound()`.
pub open spec fn tree_resizable(n: SplitNode) -> bool {
    spec_min_axis(n, WindowLayout::Horizontal) <= resize_bound() && spec_min_axis(
        n,
        WindowLayout::Vertical,
    ) <= resize_bound()
}

/// Whether the resize arithmetic on a tree stays within `i32`.
pub fn tree_resizable_exec(n: &SplitNode) -> (r: bool)
    ensures
        r == tree_resizable(*n),
{
    min_axis_for_node(n, WindowLayout::Horizontal) <= 2_147_483 && min_axis_for_node(
        n,
        WindowLayout::Vertical,
    ) <= 2_147_483
}

/// `x` clamped to `[lo, hi]`.
pub open spec fn clamp(x: int, lo: int, hi: int) -> int {
    if x < lo {
        lo
    } else if x > hi {
        hi
    } else {
        x
    }
}

/// `max(a - b, 0)`.
pub open spec fn sat_sub(a: int, b: int) -> int {
    if a >= b {
        a - b
    } else {
        0
    }
}

/// The larger of two integers.
pub open spec fn max2(a: int, b: int) -> int {
    if a >= b {
        a
    } else {
        b
    }
}

/// How a split of extent `total` along its axis divides it: the first
/// part, the second part and the axis (the extent without the border).
pub open spec fn divide_axis(total: int, split_ratio: u16) -> (int, int, int) {
    let ratio = clamp(split_ratio as int, 50, 950);
    let axis = max2(sat_sub(total, 1), 1);
    let prod = if axis * ratio > usize::MAX {
        usize::MAX as int
    } else {
        axis * ratio
    };
    let first = clamp(prod / 1000, 1, max2(sat_sub(axis, 1), 1));
    let second = max2(sat_sub(axis, first), 1);
    (first, second, axis)
}

/// Whether a resize in `direction` moves a border between panes stacked
/// along `orientation`.
pub open spec fn direction_matches(direction: ResizeDirection, orientation: WindowLayout) -> bool {
    (direction == ResizeDirection::Left || direction == ResizeDirection::Right) == (orientation
        == WindowLayout::Vertical)
}

/// The new ratio of a split whose border moves by `amount` cells along an
/// axis of `axis` cells, kept within what the two subtrees need; `None` when
/// the subtrees cannot both fit.
pub open spec fn moved_ratio(
    split_ratio: u16,
    direction: ResizeDirection,
    amount: u16,
    axis: int,
    min_first: int,
    min_second: int,
) -> Option<u16> {
    let axis_size = max2(axis, 1);
    let step = max2(max2(amount as int, 1) * 1000 / axis_size, 1);
    let signed = if direction == ResizeDirection::Left || direction == ResizeDirection::Up {
        -step
    } else {
        step
    };
    let ratio = split_ratio as int + signed;
    let min_ratio = clamp(min_first * 1000 / axis_size, 1, 999);
    let max_ratio = clamp(1000 - min_second * 1000 / axis_size, 1, 999);
    if min_ratio > max_ratio {
        None
    } else {
        Some(clamp(ratio, min_ratio, max_ratio) as u16)
    }
}

/// Resizes the pane `pane_id` in a tree of `width` by `height` cells: the
/// deepest split that holds the pane, lies along the direction and can move
/// gets a new ratio.  The flag tells whether some split moved.
pub open spec fn spec_resize(
    n: SplitNode,
    pane_id: u64,
    direction: ResizeDirection,
    amount: u16,
    width: int,
    height: int,
) -> (SplitNode, bool)
    decreases n,
{
    match n {
        SplitNode::Leaf { .. } => (n, false),
        SplitNode::Split { orientation, split_ratio, first, second } => {
            let in_first = leaves(*first).contains(pane_id);
            let in_second = leaves(*second).contains(pane_id);
            if !in_first && !in_second {
                (n, false)
            } else if orientation == WindowLayout::Vertical && width <= 2 {
                (n, false)
            } else if orientation == WindowLayout::Horizontal && height <= 2 {
                (n, false)
            } else {
                let (a, b, axis) = if orientation == WindowLayout::Vertical {
                    divide_axis(width, split_ratio)
                } else {
                    divide_axis(height, split_ratio)
                };
                let (fw, sw, fh, sh) = if orientation == WindowLayout::Vertical {
                    (a, b, height, height)
                } else {
                    (width, width, a, b)
                };
                let (f2, moved1) = spec_resize(*first, pane_id, direction, amount, fw, fh);
                if in_first && moved1 {
                    (SplitNode::Split { orientation, split_ratio, first: Box::new(f2), second }, true)
                } else {
                    let (s2, moved2) = spec_resize(*second, pane_id, direction, amount, sw, sh);
                    if in_second && moved2 {
                        (SplitNode::Split { orientation, split_ratio, first, second: Box::new(s2) }, true)
                    } else if !direction_matches(direction, orientation) {
                        (n, false)
                    } else {
                        match moved_ratio(
                            split_ratio,
                            direction,
                            amount,
                            axis,
                            spec_min_axis(*first, orientation),
                            spec_min_axis(*second, orientation),
                        ) {
                            None => (n, false),
                            Some(r) => (
                                SplitNode::Split { orientation, split_ratio: r, first, second },
                                true,
                            ),
                        }
                    }
                }
            }
        },
    }
}

fn clamp_usize(x: usize, lo: usize, hi: usize) -> (r: usize)
    requires
        lo <= hi,
    ensures
        r as int == clamp(x as int, lo as int, hi as int),
{
    if x < lo {
        lo
    } else if x > hi {
        hi
    } else {
        x
    }
}

fn clamp_i32(x: i32, lo: i32, hi: i32) -> (r: i32)
    requires
        lo <= hi,
    ensures
        r as int == clamp(x as int, lo as int, hi as int),
{
    if x < lo {
        lo
    } else if x > hi {
        hi
    } else {
        x
    }
}

fn divide_axis_exec(total: usize, split_ratio: u16) -> (r: (usize, usize, usize))
    requires
        total > 2,
    ensures
        (r.0 as int, r.1 as int, r.2 as int) == divide_axis(total as int, split_ratio),
{
    let ratio: usize = clamp_usize(split_ratio as usize, 50, 950);
    let axis: usize = if total - 1 >= 1 {
        total - 1
    } else {
        1
    };
    let prod: usize = match axis.checked_mul(ratio) {
        Some(p) => p,
        None => usize::MAX,
    };
    proof {
        assert(prod as int == if axis * ratio > usize::MAX {
            usize::MAX as int
        } else {
            axis * ratio
        });
    }
    let hi: usize = if axis - 1 >= 1 {
        axis - 1
    } else {
        1
    };
    let first: usize = clamp_usize(prod / 1000, 1, hi);
    let second: usize = if axis >= first && axis - first >= 1 {
        axis - first
    } else {
        1
    };
    (first, second, axis)
}

/// Resizes the pane `pane_id` within a tree of `width` by `height` cells.
pub fn resize_split_for_pane(
    node: &mut SplitNode,
    pane_id: u64,
    direction: ResizeDirection,
    amount: u16,
    width: usize,
    height: usize,
) -> (r: bool)
    requires
        tree_resizable(*old(node)),
        width <= 65535,
        height <= 65535,
    ensures
        (*final(node), r) == spec_resize(*old(node), pane_id, direction, amount, width as int, height as int),
    decreases *old(node),
{
    let ghost n0 = *node;
    match node {
        SplitNode::Leaf { .. } => false,
        SplitNode::Split { orientation, split_ratio, first, second } => {
            let in_first = tree_contains_pane(first, pane_id);
            let in_second = tree_contains_pane(second, pane_id);
            if !in_first && !in_second {
                return false;
            }
            let vertical = *orientation == WindowLayout::Vertical;
            if vertical && width <= 2 {
                return false;
            }
            if !vertical && height <= 2 {
                return false;
            }
            let (a, b, axis_total) = if vertical {
                divide_axis_exec(width, *split_ratio)
            } else {
                divide_axis_exec(height, *split_ratio)
            };
            let (first_w, second_w, first_h, second_h) = if vertical {
                (a, b, height, height)
            } else {
                (width, width, a, b)
            };
            proof {
                lemma_min_axis_children(n0, WindowLayout::Horizontal);
                lemma_min_axis_children(n0, WindowLayout::Vertical);
            }
            let orient = *orientation;
            let ratio0 = *split_ratio;
            if in_first && resize_split_for_pane(first, pane_id, direction, amount, first_w, first_h) {
                return true;
            }
            if in_second && resize_split_for_pane(
                second,
                pane_id,
                direction,
                amount,
                second_w,
                second_h,
            ) {
                return true;
            }
            let wants_vertical = direction == ResizeDirection::Left || direction
                == ResizeDirection::Right;
            if wants_vertical != vertical {
                return false;
            }
            let axis_size: usize = if axis_total >= 1 {
                axis_total
            } else {
                1
            };
            let amt: usize = if amount >= 1 {
                amount as usize
            } else {
                1
            };
            let step0: usize = amt * 1000 / axis_size;
            let step: i32 = if step0 >= 1 {
                step0 as i32
            } else {
                1
            };
            let signed: i32 = if direction == ResizeDirection::Left || direction == ResizeDirection::Up {
                -step
            } else {
                step
            };
            let ratio: i32 = ratio0 as i32 + signed;
            let min_first = min_axis_for_node(first, orient) as i32;
            let min_second = min_axis_for_node(second, orient) as i32;
            let axis_i32 = axis_size as i32;
            let min_ratio = clamp_i32(min_first * 1000 / axis_i32, 1, 999);
            let max_ratio = clamp_i32(1000 - (min_second * 1000 / axis_i32), 1, 999);
            if min_ratio > max_ratio {
                return false;
            }
            *split_ratio = clamp_i32(ratio, min_ratio, max_ratio) as u16;
            true
        },
    }
}

/// A resize that reports no move leaves the tree as it was; one that moves
/// keeps the leaves in order.
pub proof fn law_resize_keeps_leaves(
    n: SplitNode,
    pane_id: u64,
    direction: ResizeDirection,
    amount: u16,
    width: int,
    height: int,
)
    ensures
        ({
            let (m, moved) = spec_resize(n, pane_id, direction, amount, width, height);
            &&& !moved ==> m == n
            &&& leaves(m) == leaves(n)
        }),
    decreases n,
{
    match n {
        SplitNode::Leaf { .. } => {},
        SplitNode::Split { orientation, split_ratio, first, second } => {
            let (a, b, axis) = if orientation == WindowLayout::Vertical {
                divide_axis(width, split_ratio)
            } else {
                divide_axis(height, split_ratio)
            };
            let (fw, sw, fh, sh) = if orientation == WindowLayout::Vertical {
                (a, b, height, height)
            } else {
                (width, width, a, b)
            };
            law_resize_keeps_leaves(*first, pane_id, direction, amount, fw, fh);
            law_resize_keeps_leaves(*second, pane_id, direction, amount, sw, sh);
        },
    }
}

/// Whether `b` is `a` with at most one split's ratio moved, and a moved
/// ratio lies in `1..=999`: the same shape, orientations and leaves.
pub open spec fn one_ratio_moved(a: SplitNode, b: SplitNode) -> bool
    decreases a,
{
    match (a, b) {
        (SplitNode::Leaf { .. }, _) => a == b,
        (
            SplitNode::Split { orientation: o, split_ratio: r, first: f, second: g },
            SplitNode::Split { orientation: o2, split_ratio: r2, first: f2, second: g2 },
        ) => o == o2 && (if r == r2 {
            (*f == *f2 && one_ratio_moved(*g, *g2)) || (*g == *g2 && one_ratio_moved(*f, *f2))
        } else {
            *f == *f2 && *g == *g2 && 1 <= r2 <= 999
        }),
        _ => false,
    }
}

proof fn lemma_one_ratio_moved_refl(n: SplitNode)
    ensures
        one_ratio_moved(n, n),
    decreases n,
{
    if let SplitNode::Split { second, .. } = n {
        lemma_one_ratio_moved_refl(*second);
    }
}

/// A resize moves at most one split's ratio, to a ratio in `1..=999`; the
/// tree keeps its shape, its orientations and its leaves.
pub proof fn law_resize_moves_one_ratio(
    n: SplitNode,
    pane_id: u64,
    direction: ResizeDirection,
    amount: u16,
    width: int,
    height: int,
)
    ensures
        one_ratio_moved(n, spec_resize(n, pane_id, direction, amount, width, height).0),
    decreases n,
{
    lemma_one_ratio_moved_refl(n);
    match n {
        SplitNode::Leaf { .. } => {},
        SplitNode::Split { orientation, split_ratio, first, second } => {
            let (a, b, axis) = if orientation == WindowLayout::Vertical {
                divide_axis(width, split_ratio)
            } else {
                divide_axis(height, split_ratio)
            };
            let (fw, sw, fh, sh) = if orientation == WindowLayout::Vertical {
                (a, b, height, height)
            } else {
                (width, width, a, b)
            };
            law_resize_moves_one_ratio(*first, pane_id, direction, amount, fw, fh);
            law_resize_moves_one_ratio(*second, pane_id, direction, amount, sw, sh);
            lemma_one_ratio_moved_refl(*first);
            lemma_one_ratio_moved_refl(*second);
        },
    }
}

// ---------------------------------------------------------------------------
// Preset layouts
// ---------------------------------------------------------------------------

/// The ratio that each split of an even layout of `n` parts gets: an even
/// share, but never under 5%.
pub open spec fn even_ratio(n: int) -> u16 {
    if 1000int / n < 50 {
        50
    } else {
        (1000int / n) as u16
    }
}

fn even_ratio_exec(n: usize) -> (r: u16)
    requires
        1 <= n < 65536,
    ensures
        r == even_ratio(n as int),
{
    let n16: u16 = n as u16;
    let q: u16 = 1000u16 / n16;
    if q < 50 {
        50
    } else {
        q
    }
}

/// The other stacking direction.
pub open spec fn other_layout(o: WindowLayout) -> WindowLayout {
    match o {
        WindowLayout::Horizontal => WindowLayout::Vertical,
        WindowLayout::Vertical => WindowLayout::Horizontal,
    }
}

/// A chain of splits that gives each pane an even share along `orient`.
pub open spec fn spec_even_split(ids: Seq<u64>, orient: WindowLayout) -> SplitNode
    decreases ids.len(),
{
    if ids.len() <= 1 {
        SplitNode::Leaf { pane_id: ids[0] }
    } else {
        SplitNode::Split {
            orientation: orient,
            split_ratio: even_ratio(ids.len() as int),
            first: Box::new(SplitNode::Leaf { pane_id: ids[0] }),
            second: Box::new(spec_even_split(ids.drop_first(), orient)),
        }
    }
}

/// A main pane taking 60% of the area, the others sharing the rest evenly
/// across the other direction.
pub open spec fn spec_main_split(ids: Seq<u64>, orient: WindowLayout) -> SplitNode {
    if ids.len() <= 1 {
        SplitNode::Leaf { pane_id: ids[0] }
    } else {
        SplitNode::Split {
            orientation: orient,
            split_ratio: 600,
            first: Box::new(SplitNode::Leaf { pane_id: ids[0] }),
            second: Box::new(spec_even_split(ids.drop_first(), other_layout(orient))),
        }
    }
}

/// A chain of splits that gives each of the trees `nodes` an even share
/// along `orient`.
pub open spec fn spec_even_split_nodes(nodes: Seq<SplitNode>, orient: WindowLayout) -> SplitNode
    decreases nodes.len(),
{
    if nodes.len() <= 1 {
        nodes[0]
    } else {
        SplitNode::Split {
            orientation: orient,
            split_ratio: even_ratio(nodes.len() as int),
            first: Box::new(nodes[0]),
            second: Box::new(spec_even_split_nodes(nodes.drop_first(), orient)),
        }
    }
}

/// The least `c >= from` with `c * c >= n`.
pub open spec fn ceil_sqrt_from(n: int, from: int) -> int
    decreases n - from,
{
    if from * from >= n || from >= n {
        from
    } else {
        ceil_sqrt_from(n, from + 1)
    }
}

/// The number of columns of a tiled layout of `n` panes: the least `c >= 1`
/// with `c * c >= n`, that is the square root of `n` rounded up.
pub open spec fn tiled_cols(n: int) -> int {
    ceil_sqrt_from(n, 1)
}

/// The number of rows of a tiled layout of `n` panes.
pub open spec fn tiled_rows(n: int) -> int {
    (n + tiled_cols(n) - 1) / tiled_cols(n)
}

/// The panes of row `r` of a tiled layout of `ids`.
pub open spec fn tiled_row(ids: Seq<u64>, r: int) -> Seq<u64> {
    let cols = tiled_cols(ids.len() as int);
    let end = if (r + 1) * cols < ids.len() {
        (r + 1) * cols
    } else {
        ids.len() as int
    };
    ids.subrange(r * cols, end)
}

/// The first `k` rows of a tiled layout of `ids`, each split evenly side by
/// side.
pub open spec fn tiled_row_nodes(ids: Seq<u64>, k: int) -> Seq<SplitNode> {
    Seq::new(k as nat, |r: int| spec_even_split(tiled_row(ids, r), WindowLayout::Vertical))
}

/// Rows of evenly split panes, themselves split evenly top to bottom.
pub open spec fn spec_tiled_split(ids: Seq<u64>) -> SplitNode {
    if ids.len() <= 1 {
        SplitNode::Leaf { pane_id: ids[0] }
    } else {
        spec_even_split_nodes(
            tiled_row_nodes(ids, tiled_rows(ids.len() as int)),
            WindowLayout::Horizontal,
        )
    }
}

/// The stacking direction and split tree of a preset layout over `ids`.
pub open spec fn spec_build_preset(layout: PresetLayout, ids: Seq<u64>) -> (WindowLayout, SplitNode) {
    match layout {
        PresetLayout::EvenHorizontal => (
            WindowLayout::Vertical,
            spec_even_split(ids, WindowLayout::Vertical),
        ),
        PresetLayout::EvenVertical => (
            WindowLayout::Horizontal,
            spec_even_split(ids, WindowLayout::Horizontal),
        ),
        PresetLayout::MainHorizontal => (
            WindowLayout::Horizontal,
            spec_main_split(ids, WindowLayout::Horizontal),
        ),
        PresetLayout::MainVertical => (
            WindowLayout::Vertical,
            spec_main_split(ids, WindowLayout::Vertical),
        ),
        PresetLayout::Tiled => (WindowLayout::Horizontal, spec_tiled_split(ids)),
    }
}

fn even_split(ids: &Vec<u64>, start: usize, orient: WindowLayout) -> (r: SplitNode)
    requires
        start < ids.len(),
        ids.len() - start < 65536,
    ensures
        r == spec_even_split(ids@.skip(start as int), orient),
    decreases ids.len() - start,
{
    let ghost s = ids@.skip(start as int);
    if ids.len() - start == 1 {
        return SplitNode::Leaf { pane_id: ids[start] };
    }
    let rest = even_split(ids, start + 1, orient);
    proof {
        assert(s.drop_first() =~= ids@.skip(start + 1));
    }
    SplitNode::Split {
        orientation: orient,
        split_ratio: even_ratio_exec(ids.len() - start),
        first: Box::new(SplitNode::Leaf { pane_id: ids[start] }),
        second: Box::new(rest),
    }
}

fn main_split(ids: &Vec<u64>, orient: WindowLayout) -> (r: SplitNode)
    requires
        1 <= ids.len() < 65536,
    ensures
        r == spec_main_split(ids@, orient),
{
    if ids.len() == 1 {
        return SplitNode::Leaf { pane_id: ids[0] };
    }
    let other_orient = match orient {
        WindowLayout::Horizontal => WindowLayout::Vertical,
        WindowLayout::Vertical => WindowLayout::Horizontal,
    };
    let rest = even_split(ids, 1, other_orient);
    proof {
        assert(ids@.drop_first() =~= ids@.skip(1));
    }
    SplitNode::Split {
        orientation: orient,
        split_ratio: 600,
        first: Box::new(SplitNode::Leaf { pane_id: ids[0] }),
        second: Box::new(rest),
    }
}

fn even_split_nodes(nodes: Vec<SplitNode>, orient: WindowLayout) -> (r: SplitNode)
    requires
        1 <= nodes.len() < 65536,
    ensures
        r == spec_even_split_nodes(nodes@, orient),
    decreases nodes.len(),
{
    let ghost s = nodes@;
    let mut nodes = nodes;
    if nodes.len() == 1 {
        return nodes.remove(0);
    }
    let n = nodes.len();
    let head = nodes.remove(0);
    proof {
        assert(nodes@ =~= s.drop_first());
    }
    let rest = even_split_nodes(nodes, orient);
    SplitNode::Split {
        orientation: orient,
        split_ratio: even_ratio_exec(n),
        first: Box::new(head),
        second: Box::new(rest),
    }
}

proof fn lemma_ceil_sqrt(n: int, from: int)
    requires
        1 <= from,
        1 <= n,
        (from - 1) * (from - 1) < n,
    ensures
        ceil_sqrt_from(n, from) >= from,
        ceil_sqrt_from(n, from) * ceil_sqrt_from(n, from) >= n,
        (ceil_sqrt_from(n, from) - 1) * (ceil_sqrt_from(n, from) - 1) < n,
        ceil_sqrt_from(n, from) <= n,
    decreases n - from,
{
    if from * from >= n || from >= n {
        if from >= n {
            assert(from * from >= n) by (nonlinear_arith)
                requires
                    from >= n,
                    n >= 1,
            ;
        }
        assert(from <= n) by (nonlinear_arith)
            requires
                (from - 1) * (from - 1) < n,
                from >= 1,
        ;
    } else {
        lemma_ceil_sqrt(n, from + 1);
    }
}

fn ceil_sqrt(n: usize) -> (c: usize)
    requires
        1 <= n < 65536,
    ensures
        c as int == tiled_cols(n as int),
        1 <= c <= n,
        c * c >= n,
{
    proof {
        lemma_ceil_sqrt(n as int, 1);
    }
    let mut c: usize = 1;
    loop
        invariant
            1 <= c <= n,
            n < 65536,
            ceil_sqrt_from(n as int, c as int) == tiled_cols(n as int),
        ensures
            1 <= c <= n,
            ceil_sqrt_from(n as int, c as int) == tiled_cols(n as int),
            c >= n || c * c >= n,
            ceil_sqrt_from(n as int, c as int) == c,
        decreases n - c,
    {
        if c >= n {
            break;
        }
        proof {
            assert(c * c <= 65535 * 65535) by (nonlinear_arith)
                requires
                    c <= 65535,
            ;
        }
        if c * c >= n {
            break;
        }
        c = c + 1;
    }
    proof {
        if c >= n {
            assert(c * c >= n) by (nonlinear_arith)
                requires
                    c >= n,
                    n >= 1,
            ;
        }
    }
    c
}

fn tiled_split(ids: &Vec<u64>) -> (r: SplitNode)
    requires
        1 <= ids.len() < 65536,
    ensures
        r == spec_tiled_split(ids@),
{
    let n = ids.len();
    if n == 1 {
        return SplitNode::Leaf { pane_id: ids[0] };
    }
    let cols = ceil_sqrt(n);
    let rows = (n + cols - 1) / cols;
    proof {
        assert(rows * cols >= n) by (nonlinear_arith)
            requires
                rows as int == (n as int + cols as int - 1) / (cols as int),
                cols >= 1,
        ;
        assert(rows <= n) by (nonlinear_arith)
            requires
                rows as int == (n as int + cols as int - 1) / (cols as int),
                cols >= 1,
                n >= 1,
        ;
    }
    proof {
        assert(rows >= 1) by (nonlinear_arith)
            requires
                rows as int == (n as int + cols as int - 1) / (cols as int),
                cols >= 1,
                n >= 1,
        ;
    }
    let mut row_nodes: Vec<SplitNode> = Vec::new();
    let mut r: usize = 0;
    while r < rows
        invariant
            1 <= cols <= n < 65536,
            cols as int == tiled_cols(n as int),
            rows as int == tiled_rows(n as int),
            rows <= n,
            rows >= 1,
            n == ids.len(),
            r <= rows,
            row_nodes@.len() == r,
            row_nodes@ == tiled_row_nodes(ids@, r as int),
        decreases rows - r,
    {
        proof {
            assert(r * cols < n) by (nonlinear_arith)
                requires
                    r < rows,
                    rows as int == (n as int + cols as int - 1) / (cols as int),
                    cols >= 1,
            ;
            assert(r * cols + cols <= n * n + n) by (nonlinear_arith)
                requires
                    r < rows,
                    rows <= n,
                    cols <= n,
            ;
        }
        proof {
            assert((r + 1) * cols <= 65535 * 65535) by (nonlinear_arith)
                requires
                    r + 1 <= rows,
                    rows <= n,
                    cols <= n,
                    n <= 65535,
            ;
            assert((r + 1) * cols == r * cols + cols) by (nonlinear_arith);
        }
        let start: usize = r * cols;
        let end: usize = if (r + 1) * cols < n {
            (r + 1) * cols
        } else {
            n
        };
        let mut row: Vec<u64> = Vec::new();
        let mut i: usize = start;
        while i < end
            invariant
                start <= i <= end <= ids.len(),
                row@ == ids@.subrange(start as int, i as int),
            decreases end - i,
        {
            row.push(ids[i]);
            proof {
                assert(row@ =~= ids@.subrange(start as int, i + 1));
            }
            i = i + 1;
        }
        let node = even_split(&row, 0, WindowLayout::Vertical);
        proof {
            assert(row@.skip(0) =~= row@);
            assert(row@ =~= tiled_row(ids@, r as int));
        }
        row_nodes.push(node);
        proof {
            assert(row_nodes@ =~= tiled_row_nodes(ids@, r + 1));
        }
        r = r + 1;
    }
    even_split_nodes(row_nodes, WindowLayout::Horizontal)
}

/// The stacking direction and split tree of a preset layout over the panes
/// `pane_ids`.
pub fn build_preset_layout(layout: PresetLayout, pane_ids: &Vec<u64>) -> (r: (WindowLayout, SplitNode))
    requires
        1 <= pane_ids.len() < 65536,
    ensures
        r == spec_build_preset(layout, pane_ids@),
{
    proof {
        assert(pane_ids@.skip(0) =~= pane_ids@);
    }
    match layout {
        PresetLayout::EvenHorizontal => (
            WindowLayout::Vertical,
            even_split(pane_ids, 0, WindowLayout::Vertical),
        ),
        PresetLayout::EvenVertical => (
            WindowLayout::Horizontal,
            even_split(pane_ids, 0, WindowLayout::Horizontal),
        ),
        PresetLayout::MainHorizontal => (
            WindowLayout::Horizontal,
            main_split(pane_ids, WindowLayout::Horizontal),
        ),
        PresetLayout::MainVertical => (WindowLayout::Vertical, main_split(pane_ids, WindowLayout::Vertical)),
        PresetLayout::Tiled => (WindowLayout::Horizontal, tiled_split(pane_ids)),
    }
}

/// An even split shows every pane once, in order.
pub proof fn law_even_split_leaves(ids: Seq<u64>, orient: WindowLayout)
    requires
        ids.len() >= 1,
    ensures
        leaves(spec_even_split(ids, orient)) == ids,
    decreases ids.len(),
{
    if ids.len() > 1 {
        law_even_split_leaves(ids.drop_first(), orient);
        assert(leaves(SplitNode::Leaf { pane_id: ids[0] }) == seq![ids[0]]);
        assert(seq![ids[0]] + ids.drop_first() =~= ids);
    } else {
        assert(seq![ids[0]] =~= ids);
    }
}

/// The leaves of a sequence of trees, one tree after the other.
pub open spec fn concat_leaves(nodes: Seq<SplitNode>) -> Seq<u64>
    decreases nodes.len(),
{
    if nodes.len() == 0 {
        seq![]
    } else {
        concat_leaves(nodes.drop_last()) + leaves(nodes.last())
    }
}

proof fn lemma_concat_leaves_first(nodes: Seq<SplitNode>)
    requires
        nodes.len() >= 1,
    ensures
        concat_leaves(nodes) == leaves(nodes[0]) + concat_leaves(nodes.drop_first()),
    decreases nodes.len(),
{
    if nodes.len() == 1 {
        assert(nodes.drop_last() =~= Seq::<SplitNode>::empty());
        assert(nodes.drop_first() =~= Seq::<SplitNode>::empty());
        assert(concat_leaves(nodes) =~= leaves(nodes[0]) + concat_leaves(nodes.drop_first()));
    } else {
        lemma_concat_leaves_first(nodes.drop_last());
        assert(nodes.drop_last().drop_first() =~= nodes.drop_first().drop_last());
        assert(nodes.drop_first().last() == nodes.last());
        assert(concat_leaves(nodes) =~= leaves(nodes[0]) + concat_leaves(nodes.drop_first()));
    }
}

/// An even split of trees shows their leaves one tree after the other.
pub proof fn law_even_split_nodes_leaves(nodes: Seq<SplitNode>, orient: WindowLayout)
    requires
        nodes.len() >= 1,
    ensures
        leaves(spec_even_split_nodes(nodes, orient)) == concat_leaves(nodes),
    decreases nodes.len(),
{
    lemma_concat_leaves_first(nodes);
    if nodes.len() > 1 {
        law_even_split_nodes_leaves(nodes.drop_first(), orient);
    } else {
        assert(nodes.drop_first() =~= Seq::<SplitNode>::empty());
        assert(leaves(nodes[0]) + Seq::<u64>::empty() =~= leaves(nodes[0]));
    }
}

proof fn lemma_tiled_rows_concat(ids: Seq<u64>, k: int)
    requires
        ids.len() >= 2,
        0 <= k <= tiled_rows(ids.len() as int),
    ensures
        ({
            let n = ids.len() as int;
            let cols = tiled_cols(n);
            concat_leaves(tiled_row_nodes(ids, k)) == ids.take(if k * cols < n {
                k * cols
            } else {
                n
            })
        }),
    decreases k,
{
    let n = ids.len() as int;
    lemma_ceil_sqrt(n, 1);
    let cols = tiled_cols(n);
    let rows = tiled_rows(n);
    if k == 0 {
        assert(ids.take(0) =~= Seq::<u64>::empty());
        assert(tiled_row_nodes(ids, k) =~= Seq::<SplitNode>::empty());
    } else {
        lemma_tiled_rows_concat(ids, k - 1);
        let s = tiled_row_nodes(ids, k);
        assert(s.drop_last() =~= tiled_row_nodes(ids, k - 1));
        assert(s.last() == spec_even_split(tiled_row(ids, k - 1), WindowLayout::Vertical));
        assert((k - 1) * cols < n) by (nonlinear_arith)
            requires
                k - 1 < rows,
                rows == (n + cols - 1) / cols,
                cols >= 1,
        ;
        assert((k - 1) * cols + cols == k * cols) by (nonlinear_arith);
        let row = tiled_row(ids, k - 1);
        assert(row.len() >= 1);
        law_even_split_leaves(row, WindowLayout::Vertical);
        let end = if k * cols < n {
            k * cols
        } else {
            n
        };
        assert(ids.take((k - 1) * cols) + row =~= ids.take(end));
    }
}

/// Every preset layout shows each pane of the window once, in the order of
/// the window's panes.
pub proof fn law_preset_leaves(layout: PresetLayout, ids: Seq<u64>)
    requires
        ids.len() >= 1,
    ensures
        leaves(spec_build_preset(layout, ids).1) == ids,
{
    match layout {
        PresetLayout::EvenHorizontal => law_even_split_leaves(ids, WindowLayout::Vertical),
        PresetLayout::EvenVertical => law_even_split_leaves(ids, WindowLayout::Horizontal),
        PresetLayout::MainHorizontal | PresetLayout::MainVertical => {
            if ids.len() > 1 {
                let o = if layout == PresetLayout::MainHorizontal {
                    WindowLayout::Vertical
                } else {
                    WindowLayout::Horizontal
                };
                law_even_split_leaves(ids.drop_first(), o);
                assert(leaves(SplitNode::Leaf { pane_id: ids[0] }) == seq![ids[0]]);
                assert(seq![ids[0]] + ids.drop_first() =~= ids);
            } else {
                assert(seq![ids[0]] =~= ids);
            }
        },
        PresetLayout::Tiled => {
            if ids.len() > 1 {
                let n = ids.len() as int;
                lemma_ceil_sqrt(n, 1);
                let cols = tiled_cols(n);
                let rows = tiled_rows(n);
                assert(rows * cols >= n) by (nonlinear_arith)
                    requires
                        rows == (n + cols - 1) / cols,
                        cols >= 1,
                ;
                assert(rows >= 1) by (nonlinear_arith)
                    requires
                        rows == (n + cols - 1) / cols,
                        cols >= 1,
                        n >= 1,
                ;
                lemma_tiled_rows_concat(ids, rows);
                law_even_split_nodes_leaves(tiled_row_nodes(ids, rows), WindowLayout::Horizontal);
                assert(ids.take(n) =~= ids);
            } else {
                assert(seq![ids[0]] =~= ids);
            }
        },
    }
}

} // verus!
