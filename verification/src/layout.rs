//! The shape of the pane grid: a binary tree whose leaves are panes.

use iced_native::widget::pane_grid;
use vstd::prelude::*;

verus! {

/// The line along which a region is divided.
#[derive(Debug, Clone, Copy, PartialEq, Eq, Structural)]
pub enum Axis {
    Horizontal,
    Vertical,
}

/// One of the four directions in which focus can move.
#[derive(Debug, Clone, Copy, PartialEq, Eq, Structural)]
pub enum Direction {
    Up,
    Down,
    Left,
    Right,
}

/// The shape of a pane grid: which panes it shows and how the splits nest.
/// The dividers and their ratios are not part of the shape.
pub enum Layout {
    /// A region taken by one pane.
    Leaf(pane_grid::Pane),
    /// A region divided in two along an axis; the first part is the left or
    /// top one.
    Split(Axis, Box<Layout>, Box<Layout>),
}

/// The ratio one half, as the bit pattern of that single-precision number.
pub const ONE_HALF: u32 = 0x3F00_0000;

/// The ratio one, as the bit pattern of that single-precision number.
pub const ONE: u32 = 0x3F80_0000;

/// Whether a bit pattern is that of a ratio strictly between nought and
/// one. Such numbers have no sign bit, and among them a greater number has
/// the greater bit pattern.
pub open spec fn is_ratio(bits: u32) -> bool {
    0 < bits < ONE
}

/// Whether every divider stands at a ratio strictly between nought and one.
pub open spec fn ratios_valid(ratios: Map<pane_grid::Split, u32>) -> bool {
    forall|divider: pane_grid::Split| #[trigger]
        ratios.contains_key(divider) ==> is_ratio(ratios[divider])
}

/// Whether the ratios `after` are the ratios `before` and one more divider,
/// which stands at one half.
pub open spec fn divider_added(
    before: Map<pane_grid::Split, u32>,
    after: Map<pane_grid::Split, u32>,
) -> bool {
    exists|divider: pane_grid::Split|
        !before.contains_key(divider) && after == #[trigger] before.insert(divider, ONE_HALF)
}

/// Whether the ratios `after` are the ratios `before` less one divider.
pub open spec fn divider_gone(
    before: Map<pane_grid::Split, u32>,
    after: Map<pane_grid::Split, u32>,
) -> bool {
    exists|divider: pane_grid::Split|
        before.contains_key(divider) && after == #[trigger] before.remove(divider)
}

/// The ratios of the dividers after a request to move one of them. The
/// divider named, if it is among them and the ratio asked for lies strictly
/// between nought and one, stands at that ratio, and the others stand where
/// they stood. Any other request leaves all dividers where they stood.
pub open spec fn resized(
    ratios: Map<pane_grid::Split, u32>,
    request: (pane_grid::Split, u32),
) -> Map<pane_grid::Split, u32> {
    if ratios.contains_key(request.0) && is_ratio(request.1) {
        ratios.insert(request.0, request.1)
    } else {
        ratios
    }
}

/// The counterpart of `pane` when `x` and `y` change places.
pub open spec fn exchanged(pane: pane_grid::Pane, x: pane_grid::Pane, y: pane_grid::Pane) -> pane_grid::Pane {
    if pane == x {
        y
    } else if pane == y {
        x
    } else {
        pane
    }
}

impl Layout {
    /// The panes shown in this layout.
    pub open spec fn leaf_set(self) -> Set<pane_grid::Pane>
        decreases self,
    {
        match self {
            Layout::Leaf(p) => set![p],
            Layout::Split(_, a, b) => a.leaf_set().union(b.leaf_set()),
        }
    }

    /// Whether `pane` is shown in this layout.
    pub open spec fn has_leaf(self, pane: pane_grid::Pane) -> bool {
        self.leaf_set().contains(pane)
    }

    /// No pane is shown twice.
    pub open spec fn distinct(self) -> bool
        decreases self,
    {
        match self {
            Layout::Leaf(_) => true,
            Layout::Split(_, a, b) => a.distinct() && b.distinct() && a.leaf_set().disjoint(
                b.leaf_set(),
            ),
        }
    }

    /// The number of leaves.
    pub open spec fn count(self) -> nat
        decreases self,
    {
        match self {
            Layout::Leaf(_) => 1,
            Layout::Split(_, a, b) => a.count() + b.count(),
        }
    }

    /// The leftmost (topmost) pane.
    pub open spec fn first_leaf(self) -> pane_grid::Pane
        decreases self,
    {
        match self {
            Layout::Leaf(p) => p,
            Layout::Split(_, a, _) => a.first_leaf(),
        }
    }

    /// The layout in which the first leaf showing `pane` has become a split
    /// along `axis`, with `pane` in its first part and `fresh` in its second.
    pub open spec fn split_leaf(self, pane: pane_grid::Pane, axis: Axis, fresh: pane_grid::Pane) -> Layout
        decreases self,
    {
        match self {
            Layout::Leaf(p) => if p == pane {
                Layout::Split(axis, Box::new(Layout::Leaf(p)), Box::new(Layout::Leaf(fresh)))
            } else {
                self
            },
            Layout::Split(ax, a, b) => if a.has_leaf(pane) {
                Layout::Split(ax, Box::new(a.split_leaf(pane, axis, fresh)), b)
            } else {
                Layout::Split(ax, a, Box::new(b.split_leaf(pane, axis, fresh)))
            },
        }
    }

    /// The layout without the leaf `pane`, whose parent split has collapsed
    /// into the sibling part, together with the first pane of that sibling.
    /// `None` where `pane` is no leaf, or the only one.
    pub open spec fn remove_leaf(self, pane: pane_grid::Pane) -> Option<(Layout, pane_grid::Pane)>
        decreases self,
    {
        match self {
            Layout::Leaf(_) => None,
            Layout::Split(ax, a, b) => if *a == Layout::Leaf(pane) {
                Some((*b, b.first_leaf()))
            } else if *b == Layout::Leaf(pane) {
                Some((*a, a.first_leaf()))
            } else {
                match a.remove_leaf(pane) {
                    Some((rest, sibling)) => Some((Layout::Split(ax, Box::new(rest), b), sibling)),
                    None => match b.remove_leaf(pane) {
                        Some((rest, sibling)) => Some(
                            (Layout::Split(ax, a, Box::new(rest)), sibling),
                        ),
                        None => None,
                    },
                }
            },
        }
    }

    /// The layout in which every leaf showing `x` shows `y` and every leaf
    /// showing `y` shows `x`.
    pub open spec fn swap_leaves(self, x: pane_grid::Pane, y: pane_grid::Pane) -> Layout
        decreases self,
    {
        match self {
            Layout::Leaf(p) => Layout::Leaf(exchanged(p, x, y)),
            Layout::Split(ax, a, b) => Layout::Split(
                ax,
                Box::new(a.swap_leaves(x, y)),
                Box::new(b.swap_leaves(x, y)),
            ),
        }
    }
}

/// A layout shows at least one pane: its first leaf.
pub proof fn lemma_first_leaf(layout: Layout)
    ensures
        layout.has_leaf(layout.first_leaf()),
        layout.count() >= 1,
    decreases layout,
{
    match layout {
        Layout::Leaf(_) => {},
        Layout::Split(_, a, b) => {
            lemma_first_leaf(*a);
            lemma_first_leaf(*b);
        },
    }
}

/// The leaves of a layout are finitely many; where none is shown twice,
/// there are as many panes as leaves.
pub proof fn lemma_leaf_set_finite(layout: Layout)
    ensures
        layout.leaf_set().finite(),
        layout.distinct() ==> layout.leaf_set().len() == layout.count(),
    decreases layout,
{
    match layout {
        Layout::Leaf(p) => {
            assert(layout.leaf_set() =~= Set::<pane_grid::Pane>::empty().insert(p));
        },
        Layout::Split(_, a, b) => {
            lemma_leaf_set_finite(*a);
            lemma_leaf_set_finite(*b);
            if layout.distinct() {
                vstd::set_lib::lemma_set_disjoint_lens(a.leaf_set(), b.leaf_set());
            }
        },
    }
}

/// Splitting a leaf adds the fresh pane to the panes shown and nothing
/// else, and shows no pane twice if none was shown twice before.
pub proof fn lemma_split_leaf(layout: Layout, pane: pane_grid::Pane, axis: Axis, fresh: pane_grid::Pane)
    requires
        layout.has_leaf(pane),
    ensures
        layout.split_leaf(pane, axis, fresh).leaf_set() == layout.leaf_set().insert(fresh),
        layout.split_leaf(pane, axis, fresh) is Split,
        layout.split_leaf(pane, axis, fresh).count() == layout.count() + 1,
        layout.distinct() && !layout.has_leaf(fresh) ==> layout.split_leaf(
            pane,
            axis,
            fresh,
        ).distinct(),
    decreases layout,
{
    let after = layout.split_leaf(pane, axis, fresh);
    match layout {
        Layout::Leaf(p) => {
            reveal_with_fuel(Layout::leaf_set, 2);
            reveal_with_fuel(Layout::count, 2);
            reveal_with_fuel(Layout::distinct, 2);
            assert(after.leaf_set() =~= layout.leaf_set().insert(fresh));
        },
        Layout::Split(_, a, b) => {
            if a.has_leaf(pane) {
                lemma_split_leaf(*a, pane, axis, fresh);
            } else {
                lemma_split_leaf(*b, pane, axis, fresh);
            }
            assert(after.leaf_set() =~= layout.leaf_set().insert(fresh));
        },
    }
}

/// A pane that the layout does not show cannot be removed from it.
pub proof fn lemma_remove_absent(layout: Layout, pane: pane_grid::Pane)
    requires
        !layout.has_leaf(pane),
    ensures
        layout.remove_leaf(pane) is None,
    decreases layout,
{
    match layout {
        Layout::Leaf(_) => {},
        Layout::Split(_, a, b) => {
            lemma_remove_absent(*a, pane);
            lemma_remove_absent(*b, pane);
            assert(Layout::Leaf(pane).has_leaf(pane));
        },
    }
}

/// Removing a leaf succeeds exactly where the layout shows the pane beside
/// at least one other. What is left shows the other panes, among them the
/// sibling handed back, and none of them twice if none was before.
pub proof fn lemma_remove_leaf(layout: Layout, pane: pane_grid::Pane)
    ensures
        layout.remove_leaf(pane) is Some <==> layout.has_leaf(pane) && layout is Split,
        layout.remove_leaf(pane) matches Some((rest, sibling)) ==> {
            &&& rest.has_leaf(sibling)
            &&& rest.leaf_set().subset_of(layout.leaf_set())
            &&& layout.leaf_set().remove(pane).subset_of(rest.leaf_set())
            &&& rest.count() + 1 == layout.count()
            &&& layout.distinct() ==> rest.distinct() && !rest.has_leaf(pane)
        },
    decreases layout,
{
    match layout {
        Layout::Leaf(_) => {},
        Layout::Split(ax, a, b) => {
            lemma_first_leaf(*a);
            lemma_first_leaf(*b);
            lemma_remove_leaf(*a, pane);
            lemma_remove_leaf(*b, pane);
            if *a == Layout::Leaf(pane) {
            } else if *b == Layout::Leaf(pane) {
            } else {
                match a.remove_leaf(pane) {
                    Some((rest, sibling)) => {
                        let after = Layout::Split(ax, Box::new(rest), b);
                        assert(layout.remove_leaf(pane) == Some((after, sibling)));
                    },
                    None => {
                        match b.remove_leaf(pane) {
                            Some((rest, sibling)) => {
                                let after = Layout::Split(ax, a, Box::new(rest));
                                assert(layout.remove_leaf(pane) == Some((after, sibling)));
                            },
                            None => {},
                        }
                    },
                }
            }
        },
    }
}

/// Swapping two panes keeps the number of leaves, shows a pane exactly
/// where its counterpart was shown, and shows no pane twice if none was
/// shown twice before.
pub proof fn lemma_swap_leaves(layout: Layout, x: pane_grid::Pane, y: pane_grid::Pane)
    ensures
        layout.swap_leaves(x, y).count() == layout.count(),
        layout.swap_leaves(x, y) is Leaf <==> layout is Leaf,
        forall|p: pane_grid::Pane| #[trigger]
            layout.swap_leaves(x, y).has_leaf(p) <==> layout.has_leaf(exchanged(p, x, y)),
        layout.distinct() ==> layout.swap_leaves(x, y).distinct(),
    decreases layout,
{
    let after = layout.swap_leaves(x, y);
    match layout {
        Layout::Leaf(q) => {
            assert(after == Layout::Leaf(exchanged(q, x, y)));
            assert forall|p: pane_grid::Pane| #[trigger]
                after.has_leaf(p) <==> layout.has_leaf(exchanged(p, x, y)) by {
                assert(after.has_leaf(p) <==> p == exchanged(q, x, y));
                assert(layout.has_leaf(exchanged(p, x, y)) <==> exchanged(p, x, y) == q);
            }
        },
        Layout::Split(_, a, b) => {
            lemma_swap_leaves(*a, x, y);
            lemma_swap_leaves(*b, x, y);
            let a2 = a.swap_leaves(x, y);
            let b2 = b.swap_leaves(x, y);
            assert forall|p: pane_grid::Pane| #[trigger]
                after.has_leaf(p) <==> layout.has_leaf(exchanged(p, x, y)) by {
                assert(after.has_leaf(p) <==> a2.has_leaf(p) || b2.has_leaf(p));
            }
            if layout.distinct() {
                assert forall|p: pane_grid::Pane|
                    !(a2.leaf_set().contains(p) && b2.leaf_set().contains(p)) by {
                    let q = exchanged(p, x, y);
                    assert(a2.has_leaf(p) <==> a.has_leaf(q));
                    assert(b2.has_leaf(p) <==> b.has_leaf(q));
                    assert(!(a.leaf_set().contains(q) && b.leaf_set().contains(q)));
                }
                assert(a2.leaf_set().disjoint(b2.leaf_set()));
            }
        },
    }
}

/// Swapping a pane with itself, or two panes of which the layout shows
/// neither, changes nothing.
pub proof fn lemma_swap_nothing(layout: Layout, x: pane_grid::Pane, y: pane_grid::Pane)
    requires
        x == y || (!layout.has_leaf(x) && !layout.has_leaf(y)),
    ensures
        layout.swap_leaves(x, y) == layout,
    decreases layout,
{
    match layout {
        Layout::Leaf(_) => {},
        Layout::Split(_, a, b) => {
            lemma_swap_nothing(*a, x, y);
            lemma_swap_nothing(*b, x, y);
        },
    }
}

/// Splitting a leaf and then closing the pane that the split added restores
/// the layout and hands back the pane that was split. Closing the pane that
/// was split instead leaves the layout as it was before the split, with the
/// added pane in the place of the closed one, and hands back the added pane.
pub proof fn lemma_split_then_remove(
    layout: Layout,
    pane: pane_grid::Pane,
    axis: Axis,
    fresh: pane_grid::Pane,
)
    requires
        layout.distinct(),
        layout.has_leaf(pane),
        !layout.has_leaf(fresh),
    ensures
        layout.split_leaf(pane, axis, fresh).remove_leaf(fresh) == Some((layout, pane)),
        layout.split_leaf(pane, axis, fresh).remove_leaf(pane) == Some(
            (layout.swap_leaves(pane, fresh), fresh),
        ),
    decreases layout,
{
    let after = layout.split_leaf(pane, axis, fresh);
    match layout {
        Layout::Leaf(_) => {},
        Layout::Split(ax, a, b) => {
            if a.has_leaf(pane) {
                lemma_split_leaf(*a, pane, axis, fresh);
                lemma_split_then_remove(*a, pane, axis, fresh);
                lemma_swap_nothing(*b, pane, fresh);
                let a2 = a.split_leaf(pane, axis, fresh);
                assert(after == Layout::Split(ax, Box::new(a2), b));
                assert(*b != Layout::Leaf(fresh));
                assert(*b != Layout::Leaf(pane));
            } else {
                lemma_split_leaf(*b, pane, axis, fresh);
                lemma_split_then_remove(*b, pane, axis, fresh);
                lemma_swap_nothing(*a, pane, fresh);
                lemma_remove_absent(*a, fresh);
                lemma_remove_absent(*a, pane);
                let b2 = b.split_leaf(pane, axis, fresh);
                assert(after == Layout::Split(ax, a, Box::new(b2)));
                assert(*a != Layout::Leaf(fresh));
                assert(*a != Layout::Leaf(pane));
            }
        },
    }
}

} // verus!
