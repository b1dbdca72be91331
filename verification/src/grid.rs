//! The pane grid of `iced_native`, as far as the workspace relies on it.
//!
//! Nothing in this file is proved: the contracts below record what the
//! grid's source shows of each method.

use crate::layout::{divider_gone, Axis, Direction, Layout, ONE_HALF};
use crate::panel::Panel;
use iced_native::widget::pane_grid;
use vstd::prelude::*;

verus! {

#[verifier::external_type_specification]
#[verifier::external_body]
#[verifier::reject_recursive_types(T)]
pub struct ExGridState<T>(pane_grid::State<T>);

#[verifier::external_type_specification]
#[verifier::external_body]
pub struct ExGridPane(pane_grid::Pane);

#[verifier::external_type_specification]
#[verifier::external_body]
pub struct ExGridSplit(pane_grid::Split);

#[verifier::external_type_specification]
#[verifier::external_body]
pub struct ExResizeEvent(pane_grid::ResizeEvent);

/// The content that the grid keeps for each of its panes.
pub uninterp spec fn grid_panes(grid: pane_grid::State<Panel>) -> Map<pane_grid::Pane, Panel>;

/// The shape of the grid's layout tree.
pub uninterp spec fn grid_layout(grid: pane_grid::State<Panel>) -> Layout;

/// The pane that alone is shown, if one is maximized.
pub uninterp spec fn grid_maximized(grid: pane_grid::State<Panel>) -> Option<pane_grid::Pane>;

/// The handles that the grid will not hand out again: those up to its
/// identifier counter.
pub uninterp spec fn grid_issued(grid: pane_grid::State<Panel>) -> Set<pane_grid::Pane>;

/// How many more identifiers the grid's counter can hand out.
pub uninterp spec fn grid_spare(grid: pane_grid::State<Panel>) -> nat;

/// The dividers of the grid's layout, each with the ratio at which it
/// stands, as the bit pattern of that single-precision number.
pub uninterp spec fn grid_ratios(grid: pane_grid::State<Panel>) -> Map<pane_grid::Split, u32>;

/// What a resize event carries: the divider that it names and the ratio
/// that it asks for, as the bit pattern of that single-precision number.
pub uninterp spec fn resize_of(event: pane_grid::ResizeEvent) -> (pane_grid::Split, u32);

/// What `State::adjacent` answers for a pane and a direction.
pub uninterp spec fn grid_adjacent(
    grid: pane_grid::State<Panel>,
    pane: pane_grid::Pane,
    direction: Direction,
) -> Option<pane_grid::Pane>;

/// `State::new`: a grid of the single pane `first`, without a divider,
/// nothing maximized, whose counter stands at one.
#[verifier::external_body]
pub(crate) fn grid_new(first: Panel) -> (r: (pane_grid::State<Panel>, pane_grid::Pane))
    ensures
        grid_panes(r.0) == Map::<pane_grid::Pane, Panel>::empty().insert(r.1, first),
        grid_layout(r.0) == Layout::Leaf(r.1),
        forall|divider: pane_grid::Split| !grid_ratios(r.0).contains_key(divider),
        grid_maximized(r.0) == None::<pane_grid::Pane>,
        grid_issued(r.0).contains(r.1),
        grid_spare(r.0) == usize::MAX - 1,
{
    pane_grid::State::new(first)
}

/// `State::len`: the number of panes.
#[verifier::external_body]
pub(crate) fn grid_len(grid: &pane_grid::State<Panel>) -> (r: usize)
    ensures
        r == grid_panes(*grid).len(),
{
    grid.len()
}

/// `State::get`: the content kept for `pane`, if the grid has it.
#[verifier::external_body]
pub(crate) fn grid_get(grid: &pane_grid::State<Panel>, pane: &pane_grid::Pane) -> (r: Option<Panel>)
    ensures
        r == (if grid_panes(*grid).contains_key(*pane) {
            Some(grid_panes(*grid)[*pane])
        } else {
            None
        }),
{
    grid.get(pane).copied()
}

/// `State::get_mut`, written through: replaces the content kept for `pane`
/// and says whether the grid has that pane. Nothing else changes.
#[verifier::external_body]
pub(crate) fn grid_put(
    grid: &mut pane_grid::State<Panel>,
    pane: &pane_grid::Pane,
    content: Panel,
) -> (r: bool)
    ensures
        r == grid_panes(*old(grid)).contains_key(*pane),
        grid_panes(*final(grid)) == (if r {
            grid_panes(*old(grid)).insert(*pane, content)
        } else {
            grid_panes(*old(grid))
        }),
        grid_layout(*final(grid)) == grid_layout(*old(grid)),
        grid_ratios(*final(grid)) == grid_ratios(*old(grid)),
        grid_maximized(*final(grid)) == grid_maximized(*old(grid)),
        grid_issued(*final(grid)) == grid_issued(*old(grid)),
        grid_spare(*final(grid)) == grid_spare(*old(grid)),
{
    match grid.get_mut(pane) {
        Some(slot) => {
            *slot = content;
            true
        },
        None => false,
    }
}

/// `State::layout`, asked whether the whole layout is a single pane.
#[verifier::external_body]
pub(crate) fn grid_is_single(grid: &pane_grid::State<Panel>) -> (r: bool)
    ensures
        r == (grid_layout(*grid) is Leaf),
{
    match grid.layout() {
        pane_grid::Node::Pane(_) => true,
        pane_grid::Node::Split { .. } => false,
    }
}

/// `State::maximized`.
#[verifier::external_body]
pub(crate) fn grid_get_maximized(grid: &pane_grid::State<Panel>) -> (r: Option<pane_grid::Pane>)
    ensures
        r == grid_maximized(*grid),
{
    grid.maximized()
}

/// `State::adjacent`: the answer is a leaf of the layout; there is none for
/// a pane that is no leaf, nor in a layout of one pane.
#[verifier::external_body]
pub(crate) fn grid_find_adjacent(
    grid: &pane_grid::State<Panel>,
    pane: &pane_grid::Pane,
    direction: Direction,
) -> (r: Option<pane_grid::Pane>)
    ensures
        r == grid_adjacent(*grid, *pane, direction),
        r matches Some(p) ==> grid_layout(*grid).has_leaf(p),
        !grid_layout(*grid).has_leaf(*pane) ==> r is None,
        grid_layout(*grid) is Leaf ==> r is None,
{
    grid.adjacent(
        pane,
        match direction {
            Direction::Up => pane_grid::Direction::Up,
            Direction::Down => pane_grid::Direction::Down,
            Direction::Left => pane_grid::Direction::Left,
            Direction::Right => pane_grid::Direction::Right,
        },
    )
}

/// `State::split`: succeeds exactly where `pane` is a leaf and the counter
/// can hand out two more identifiers, one for the pane and one for the
/// divider. The first leaf showing `pane` then becomes a split of `pane` and
/// a handle not issued before, which keeps `content`; the divider between
/// them is one that the layout did not have and stands at one half, the
/// other dividers stand where they stood, and nothing is maximized any
/// more. A failed call changes neither panes, layout, dividers nor maximized
/// pane, and for a pane that is no leaf not the counter either.
#[verifier::external_body]
pub(crate) fn grid_split(
    grid: &mut pane_grid::State<Panel>,
    axis: Axis,
    pane: &pane_grid::Pane,
    content: Panel,
) -> (r: Option<(pane_grid::Pane, pane_grid::Split)>)
    ensures
        r is Some <==> grid_layout(*old(grid)).has_leaf(*pane) && grid_spare(*old(grid)) >= 2,
        grid_issued(*old(grid)).subset_of(grid_issued(*final(grid))),
        grid_spare(*final(grid)) <= grid_spare(*old(grid)),
        !grid_layout(*old(grid)).has_leaf(*pane) ==> grid_spare(*final(grid)) == grid_spare(
            *old(grid),
        ),
        match r {
            Some((fresh, divider)) => {
                &&& !grid_ratios(*old(grid)).contains_key(divider)
                &&& grid_ratios(*final(grid)) == grid_ratios(*old(grid)).insert(
                    divider,
                    ONE_HALF,
                )
                &&& grid_spare(*final(grid)) == grid_spare(*old(grid)) - 2
                &&& !grid_issued(*old(grid)).contains(fresh)
                &&& grid_issued(*final(grid)).contains(fresh)
                &&& grid_panes(*final(grid)) == grid_panes(*old(grid)).insert(fresh, content)
                &&& grid_layout(*final(grid)) == grid_layout(*old(grid)).split_leaf(
                    *pane,
                    axis,
                    fresh,
                )
                &&& grid_maximized(*final(grid)) == None::<pane_grid::Pane>
            },
            None => {
                &&& grid_panes(*final(grid)) == grid_panes(*old(grid))
                &&& grid_layout(*final(grid)) == grid_layout(*old(grid))
                &&& grid_ratios(*final(grid)) == grid_ratios(*old(grid))
                &&& grid_maximized(*final(grid)) == grid_maximized(*old(grid))
            },
        },
{
    let axis = match axis {
        Axis::Horizontal => pane_grid::Axis::Horizontal,
        Axis::Vertical => pane_grid::Axis::Vertical,
    };
    grid.split(axis, pane, content)
}

/// `State::swap`: every leaf showing one of the two panes shows the other.
/// Contents, dividers, maximized pane and counter stay.
#[verifier::external_body]
pub(crate) fn grid_swap(grid: &mut pane_grid::State<Panel>, a: &pane_grid::Pane, b: &pane_grid::Pane)
    ensures
        grid_layout(*final(grid)) == grid_layout(*old(grid)).swap_leaves(*a, *b),
        grid_panes(*final(grid)) == grid_panes(*old(grid)),
        grid_ratios(*final(grid)) == grid_ratios(*old(grid)),
        grid_maximized(*final(grid)) == grid_maximized(*old(grid)),
        grid_issued(*final(grid)) == grid_issued(*old(grid)),
        grid_spare(*final(grid)) == grid_spare(*old(grid)),
{
    grid.swap(a, b)
}

/// The two public fields of a `ResizeEvent`, read as they are: the divider,
/// and the ratio as the bit pattern that the standard library's `to_bits`
/// gives for it.
#[verifier::external_body]
pub(crate) fn resize_parts(event: &pane_grid::ResizeEvent) -> (r: (pane_grid::Split, u32))
    ensures
        r == resize_of(*event),
{
    (event.split, event.ratio.to_bits())
}

/// `State::resize`: the divider that the event names, if the layout has
/// it, stands at the ratio that the event carries, whatever that ratio is;
/// every other divider stands where it stood. Shape, contents, maximized
/// pane and counter stay.
#[verifier::external_body]
pub(crate) fn grid_resize(grid: &mut pane_grid::State<Panel>, event: &pane_grid::ResizeEvent)
    ensures
        grid_ratios(*final(grid)) == (if grid_ratios(*old(grid)).contains_key(
            resize_of(*event).0,
        ) {
            grid_ratios(*old(grid)).insert(resize_of(*event).0, resize_of(*event).1)
        } else {
            grid_ratios(*old(grid))
        }),
        grid_layout(*final(grid)) == grid_layout(*old(grid)),
        grid_panes(*final(grid)) == grid_panes(*old(grid)),
        grid_maximized(*final(grid)) == grid_maximized(*old(grid)),
        grid_issued(*final(grid)) == grid_issued(*old(grid)),
        grid_spare(*final(grid)) == grid_spare(*old(grid)),
{
    grid.resize(&event.split, event.ratio)
}

/// `State::maximize`: `pane` becomes the maximized pane, whether or not the
/// grid has it. Layout, dividers, contents and counter stay.
#[verifier::external_body]
pub(crate) fn grid_maximize(grid: &mut pane_grid::State<Panel>, pane: &pane_grid::Pane)
    ensures
        grid_maximized(*final(grid)) == Some(*pane),
        grid_layout(*final(grid)) == grid_layout(*old(grid)),
        grid_ratios(*final(grid)) == grid_ratios(*old(grid)),
        grid_panes(*final(grid)) == grid_panes(*old(grid)),
        grid_issued(*final(grid)) == grid_issued(*old(grid)),
        grid_spare(*final(grid)) == grid_spare(*old(grid)),
{
    grid.maximize(pane)
}

/// `State::restore`: no pane is maximized any more. Layout, dividers,
/// contents and counter stay.
#[verifier::external_body]
pub(crate) fn grid_restore(grid: &mut pane_grid::State<Panel>)
    ensures
        grid_maximized(*final(grid)) == None::<pane_grid::Pane>,
        grid_layout(*final(grid)) == grid_layout(*old(grid)),
        grid_ratios(*final(grid)) == grid_ratios(*old(grid)),
        grid_panes(*final(grid)) == grid_panes(*old(grid)),
        grid_issued(*final(grid)) == grid_issued(*old(grid)),
        grid_spare(*final(grid)) == grid_spare(*old(grid)),
{
    grid.restore()
}

/// `State::close`: `pane` stops being maximized in any case. Where the
/// layout can lose the leaf, it does, and with it the divider above it, while
/// the other dividers stand where they stood; the content kept for `pane` is
/// dropped, and the call hands back that content and the sibling's first
/// pane, or nothing if no content was kept. Otherwise layout, dividers and
/// contents stay.
#[verifier::external_body]
pub(crate) fn grid_close(grid: &mut pane_grid::State<Panel>, pane: &pane_grid::Pane) -> (r: Option<
    (Panel, pane_grid::Pane),
>)
    ensures
        grid_maximized(*final(grid)) == (if grid_maximized(*old(grid)) == Some(*pane) {
            None
        } else {
            grid_maximized(*old(grid))
        }),
        grid_issued(*final(grid)) == grid_issued(*old(grid)),
        grid_spare(*final(grid)) == grid_spare(*old(grid)),
        match grid_layout(*old(grid)).remove_leaf(*pane) {
            Some((rest, sibling)) => {
                &&& grid_layout(*final(grid)) == rest
                &&& divider_gone(grid_ratios(*old(grid)), grid_ratios(*final(grid)))
                &&& grid_panes(*final(grid)) == grid_panes(*old(grid)).remove(*pane)
                &&& r == (if grid_panes(*old(grid)).contains_key(*pane) {
                    Some((grid_panes(*old(grid))[*pane], sibling))
                } else {
                    None
                })
            },
            None => {
                &&& r is None
                &&& grid_layout(*final(grid)) == grid_layout(*old(grid))
                &&& grid_ratios(*final(grid)) == grid_ratios(*old(grid))
                &&& grid_panes(*final(grid)) == grid_panes(*old(grid))
            },
        },
{
    grid.close(pane)
}

} // verus!
