//! The workspace: a grid of panes that can be split, resized, swapped,
//! maximized, pinned, closed and walked through.
//!
//! The grid itself is the pane grid of `iced_native`; this module keeps the
//! rules of the workspace around it: which pane has focus, which one shows
//! the process table, how panes are numbered, and which requests are
//! silently ignored.

use crate::grid::{
    grid_adjacent, grid_close, grid_find_adjacent, grid_get, grid_get_maximized, grid_is_single,
    grid_issued, grid_layout, grid_len, grid_maximize, grid_maximized, grid_new, grid_panes,
    grid_put, grid_ratios, grid_resize, grid_restore, grid_spare, grid_split, grid_swap,
    resize_of, resize_parts,
};
use crate::layout::{
    divider_added, divider_gone, exchanged, is_ratio, lemma_first_leaf, lemma_leaf_set_finite,
    lemma_remove_leaf, lemma_split_leaf, lemma_split_then_remove, lemma_swap_leaves,
    ratios_valid, resized, Axis, Direction, Layout, ONE,
};
use crate::panel::{PaneType, Panel};
use iced_native::widget::pane_grid;
use vstd::prelude::*;

verus! {

/// What a workspace is, as far as its contracts speak of it. The dividers
/// and their ratios are spoken of apart, by [`Workspace::ratios`].
pub struct WorkspaceView {
    /// The content of every pane.
    pub panes: Map<pane_grid::Pane, Panel>,
    /// How the panes are arranged.
    pub layout: Layout,
    /// The pane that alone is shown, if any.
    pub maximized: Option<pane_grid::Pane>,
    /// The pane that keyboard requests act on, if any.
    pub focus: Option<pane_grid::Pane>,
    /// The pane that was last made the process table, if any.
    pub tasks_pane: Option<pane_grid::Pane>,
    /// The number that the next pane will get.
    pub panes_created: usize,
    /// Whether panes show their title bars.
    pub show_title_bar: bool,
}

impl WorkspaceView {
    /// What holds of every workspace: the layout shows each pane once and
    /// shows exactly the panes that have a content; pane numbers are below
    /// the next number and no two panes share one; only the recorded pane
    /// shows the process table.
    pub open spec fn inv(self) -> bool {
        &&& self.panes.dom().finite()
        &&& self.layout.distinct()
        &&& self.layout.leaf_set() == self.panes.dom()
        &&& forall|h: pane_grid::Pane| #[trigger]
            self.panes.contains_key(h) ==> self.panes[h].id < self.panes_created
        &&& forall|h1: pane_grid::Pane, h2: pane_grid::Pane|
            #![trigger self.panes[h1], self.panes[h2]]
            self.panes.contains_key(h1) && self.panes.contains_key(h2) && h1 != h2
                ==> self.panes[h1].id != self.panes[h2].id
        &&& forall|h: pane_grid::Pane| #[trigger]
            self.panes.contains_key(h) && self.panes[h].pane_type == PaneType::Tasks
                ==> self.tasks_pane == Some(h)
    }

    /// Whether another pane can be added: fewer than half of all numbers are
    /// taken, so that the grid can still tell the pane and its divider from
    /// all others.
    pub open spec fn has_room(self) -> bool {
        self.panes_created <= usize::MAX / 2
    }

    /// The workspace after `pane` was split along `axis` and `fresh` was added
    /// beside it.
    pub open spec fn split(self, pane: pane_grid::Pane, axis: Axis, fresh: pane_grid::Pane) -> Self {
        WorkspaceView {
            panes: self.panes.insert(fresh, Panel::new_spec(self.panes_created)),
            layout: self.layout.split_leaf(pane, axis, fresh),
            maximized: None,
            panes_created: (self.panes_created + 1) as usize,
            ..self
        }
    }

    /// Whether `pane` can be closed: it exists, is not pinned and is not the
    /// only pane.
    pub open spec fn closable(self, pane: pane_grid::Pane) -> bool {
        &&& self.panes.contains_key(pane)
        &&& !self.panes[pane].is_pinned
        &&& self.layout is Split
    }

    /// The pane that takes the place of `pane` when it is closed: the first
    /// pane of its sibling.
    pub open spec fn sibling(self, pane: pane_grid::Pane) -> pane_grid::Pane {
        self.layout.remove_leaf(pane)->Some_0.1
    }

    /// The workspace after `pane` was closed: its leaf is gone, its parent
    /// split has collapsed into the sibling, and it is maximized no more.
    pub open spec fn close(self, pane: pane_grid::Pane) -> Self {
        WorkspaceView {
            panes: self.panes.remove(pane),
            layout: self.layout.remove_leaf(pane)->Some_0.0,
            maximized: if self.maximized == Some(pane) {
                None
            } else {
                self.maximized
            },
            ..self
        }
    }

    /// The workspace after the panes `a` and `b` changed places.
    pub open spec fn swap(self, a: pane_grid::Pane, b: pane_grid::Pane) -> Self {
        WorkspaceView { layout: self.layout.swap_leaves(a, b), ..self }
    }

    /// The workspace in which `pane` has the content `panel`.
    pub open spec fn with_panel(self, pane: pane_grid::Pane, panel: Panel) -> Self {
        WorkspaceView { panes: self.panes.insert(pane, panel), ..self }
    }

    /// The workspace after the pin of `pane` was flipped, if it exists.
    pub open spec fn toggle_pin(self, pane: pane_grid::Pane) -> Self {
        if self.panes.contains_key(pane) {
            let panel = self.panes[pane];
            self.with_panel(pane, Panel { is_pinned: !panel.is_pinned, ..panel })
        } else {
            self
        }
    }

    /// The workspace after `pane` was asked to show `kind`. Any kind but the
    /// process table is taken, and a pane that showed the table gives up the
    /// record of it. The process table is taken only while no pane is on
    /// record as showing it.
    pub open spec fn change_type(self, pane: pane_grid::Pane, kind: PaneType) -> Self {
        if !self.panes.contains_key(pane) {
            self
        } else {
            let panel = self.panes[pane];
            if kind != PaneType::Tasks {
                WorkspaceView {
                    tasks_pane: if panel.pane_type == PaneType::Tasks {
                        None
                    } else {
                        self.tasks_pane
                    },
                    ..self.with_panel(pane, Panel { pane_type: kind, ..panel })
                }
            } else if self.tasks_pane is None {
                WorkspaceView {
                    tasks_pane: Some(pane),
                    ..self.with_panel(pane, Panel { pane_type: kind, ..panel })
                }
            } else {
                self
            }
        }
    }

    /// The workspace with another focus.
    pub open spec fn with_focus(self, focus: Option<pane_grid::Pane>) -> Self {
        WorkspaceView { focus, ..self }
    }

    /// The workspace with another maximized pane.
    pub open spec fn with_maximized(self, maximized: Option<pane_grid::Pane>) -> Self {
        WorkspaceView { maximized, ..self }
    }
}

/// Splitting a pane and then closing the pane that the split added hands
/// back the pane that was split and restores panes and layout. Closing the
/// pane that was split instead, if it is not pinned, hands back the added
/// pane, which takes its place in the layout.
pub proof fn lemma_split_then_close(
    before: WorkspaceView,
    pane: pane_grid::Pane,
    axis: Axis,
    fresh: pane_grid::Pane,
)
    requires
        before.inv(),
        before.panes.contains_key(pane),
        !before.panes.contains_key(fresh),
        before.has_room(),
    ensures
        before.split(pane, axis, fresh).closable(fresh),
        before.split(pane, axis, fresh).sibling(fresh) == pane,
        before.split(pane, axis, fresh).close(fresh) == (WorkspaceView {
            maximized: None,
            panes_created: (before.panes_created + 1) as usize,
            ..before
        }),
        !before.panes[pane].is_pinned ==> {
            &&& before.split(pane, axis, fresh).closable(pane)
            &&& before.split(pane, axis, fresh).sibling(pane) == fresh
            &&& before.split(pane, axis, fresh).close(pane).layout == before.layout.swap_leaves(
                pane,
                fresh,
            )
            &&& before.split(pane, axis, fresh).close(pane).panes == before.panes.remove(
                pane,
            ).insert(fresh, Panel::new_spec(before.panes_created))
        },
{
    let after = before.split(pane, axis, fresh);
    lemma_split_leaf(before.layout, pane, axis, fresh);
    lemma_split_then_remove(before.layout, pane, axis, fresh);
    assert(after.close(fresh).panes =~= before.panes);
    assert(after.close(pane).panes =~= before.panes.remove(pane).insert(
        fresh,
        Panel::new_spec(before.panes_created),
    ));
}

/// A grid of panes together with the focus, the pane on record as the process
/// table, the pane counter and the title-bar switch.
pub struct Workspace {
    panes: pane_grid::State<Panel>,
    panes_created: usize,
    focus: Option<pane_grid::Pane>,
    tasks_pane: Option<pane_grid::Pane>,
    show_title_bar: bool,
}

impl View for Workspace {
    type V = WorkspaceView;

    closed spec fn view(&self) -> WorkspaceView {
        WorkspaceView {
            panes: grid_panes(self.panes),
            layout: grid_layout(self.panes),
            maximized: grid_maximized(self.panes),
            focus: self.focus,
            tasks_pane: self.tasks_pane,
            panes_created: self.panes_created,
            show_title_bar: self.show_title_bar,
        }
    }
}

impl Workspace {
    /// Well-formedness: the invariant of the view holds, every divider
    /// stands at a ratio strictly between nought and one, every pane of the
    /// grid is one that the grid will not hand out again, and the grid's
    /// counter has advanced twice for every pane created after the first.
    pub closed spec fn wf(&self) -> bool {
        &&& self@.inv()
        &&& ratios_valid(grid_ratios(self.panes))
        &&& self@.panes.dom().subset_of(grid_issued(self.panes))
        &&& grid_spare(self.panes) + 2 * self.panes_created == usize::MAX + 1
    }

    /// The dividers of the workspace, each with the ratio at which it stands,
    /// as the bit pattern of that single-precision number.
    pub closed spec fn ratios(&self) -> Map<pane_grid::Split, u32> {
        grid_ratios(self.panes)
    }

    /// The neighbour that the grid's geometry gives `pane` in `direction`.
    pub closed spec fn adjacent_pane(&self, pane: pane_grid::Pane, direction: Direction) -> Option<
        pane_grid::Pane,
    > {
        grid_adjacent(self.panes, pane, direction)
    }

    /// A well-formed workspace satisfies the invariant of its view, and
    /// every divider of it stands at a ratio strictly between nought and one.
    pub proof fn lemma_inv(&self)
        requires
            self.wf(),
        ensures
            self@.inv(),
            ratios_valid(self.ratios()),
            self@.layout.count() == self@.panes.len(),
            self@.panes.len() >= 1,
    {
        lemma_leaf_set_finite(self@.layout);
        lemma_first_leaf(self@.layout);
    }

    /// A workspace of one pane, numbered 0, with no divider and no focus.
    pub fn new() -> (r: Self)
        ensures
            r.wf(),
            r.ratios() == Map::<pane_grid::Split, u32>::empty(),
            r@.layout is Leaf,
            r@.panes == Map::<pane_grid::Pane, Panel>::empty().insert(
                r@.layout.first_leaf(),
                Panel::new_spec(0),
            ),
            r@.maximized is None,
            r@.focus is None,
            r@.tasks_pane is None,
            r@.panes_created == 1,
            !r@.show_title_bar,
    {
        let (panes, _) = grid_new(Panel::new(0));
        let r = Workspace {
            panes,
            panes_created: 1,
            focus: None,
            tasks_pane: None,
            show_title_bar: false,
        };
        proof {
            assert(r@.layout.leaf_set() =~= r@.panes.dom());
            assert(r.ratios() =~= Map::<pane_grid::Split, u32>::empty());
        }
        r
    }

    /// The grid, for drawing it.
    pub fn grid(&self) -> (r: &pane_grid::State<Panel>)
        ensures
            grid_panes(*r) == self@.panes,
            grid_layout(*r) == self@.layout,
            grid_ratios(*r) == self.ratios(),
            grid_maximized(*r) == self@.maximized,
    {
        &self.panes
    }

    /// The number of panes.
    pub fn len(&self) -> (r: usize)
        ensures
            r == self@.panes.len(),
    {
        grid_len(&self.panes)
    }

    /// The content of `pane`, if it exists.
    pub fn get(&self, pane: &pane_grid::Pane) -> (r: Option<Panel>)
        ensures
            r == (if self@.panes.contains_key(*pane) {
                Some(self@.panes[*pane])
            } else {
                None
            }),
    {
        grid_get(&self.panes, pane)
    }

    /// The pane that has focus.
    pub fn focus(&self) -> (r: Option<pane_grid::Pane>)
        ensures
            r == self@.focus,
    {
        self.focus
    }

    /// The pane on record as showing the process table.
    pub fn tasks_pane(&self) -> (r: Option<pane_grid::Pane>)
        ensures
            r == self@.tasks_pane,
    {
        self.tasks_pane
    }

    /// The maximized pane.
    pub fn maximized(&self) -> (r: Option<pane_grid::Pane>)
        ensures
            r == self@.maximized,
    {
        grid_get_maximized(&self.panes)
    }

    /// The number of panes created so far, which the next pane will get.
    pub fn panes_created(&self) -> (r: usize)
        ensures
            r == self@.panes_created,
    {
        self.panes_created
    }

    /// Whether panes show their title bars.
    pub fn show_title_bar(&self) -> (r: bool)
        ensures
            r == self@.show_title_bar,
    {
        self.show_title_bar
    }

    /// Splits `pane` along `axis`: its leaf becomes a split with `pane` in
    /// the first part and a fresh pane, numbered with the pane counter, in
    /// the second. The divider between them is a new one and stands at one
    /// half; the other dividers stand where they stood. Nothing is maximized
    /// afterwards. Hands back the fresh pane. Where `pane` does not exist, or
    /// no pane can be added any more, nothing changes.
    pub fn split(&mut self, axis: Axis, pane: &pane_grid::Pane) -> (r: Option<pane_grid::Pane>)
        requires
            old(self).wf(),
        ensures
            final(self).wf(),
            r is Some <==> old(self)@.panes.contains_key(*pane) && old(self)@.has_room(),
            match r {
                Some(fresh) => {
                    &&& !old(self)@.panes.contains_key(fresh)
                    &&& final(self)@ == old(self)@.split(*pane, axis, fresh)
                    &&& divider_added(old(self).ratios(), final(self).ratios())
                },
                None => final(self)@ == old(self)@ && final(self).ratios() == old(self).ratios(),
            },
    {
        if self.panes_created > usize::MAX / 2 {
            return None;
        }
        let content = Panel::new(self.panes_created);
        let r = grid_split(&mut self.panes, axis, pane, content);
        match r {
            Some((fresh, _)) => {
                self.panes_created = self.panes_created + 1;
                proof {
                    lemma_split_leaf(old(self)@.layout, *pane, axis, fresh);
                    assert(self@.layout.leaf_set() =~= self@.panes.dom());
                    assert(self@ == old(self)@.split(*pane, axis, fresh));
                }
                Some(fresh)
            },
            None => None,
        }
    }

    /// Closes `pane`: its leaf is removed, its parent split collapses into
    /// the sibling, and the sibling's first pane is handed back so that focus
    /// can move there. The divider of that split is gone; the other dividers
    /// stand where they stood. A closed pane is maximized no more. Where
    /// `pane` does not exist, is pinned, or is the only pane, nothing
    /// changes.
    pub fn close(&mut self, pane: &pane_grid::Pane) -> (r: Option<pane_grid::Pane>)
        requires
            old(self).wf(),
        ensures
            final(self).wf(),
            r is Some <==> old(self)@.closable(*pane),
            match r {
                Some(sibling) => {
                    &&& sibling == old(self)@.sibling(*pane)
                    &&& final(self)@.panes.contains_key(sibling)
                    &&& final(self)@ == old(self)@.close(*pane)
                    &&& divider_gone(old(self).ratios(), final(self).ratios())
                },
                None => final(self)@ == old(self)@ && final(self).ratios() == old(self).ratios(),
            },
    {
        match grid_get(&self.panes, pane) {
            None => None,
            Some(panel) => {
                if panel.is_pinned || grid_is_single(&self.panes) {
                    None
                } else {
                    proof {
                        lemma_remove_leaf(self@.layout, *pane);
                    }
                    match grid_close(&mut self.panes, pane) {
                        Some((_, sibling)) => {
                            proof {
                                assert(self@.layout.leaf_set() =~= self@.panes.dom());
                            }
                            Some(sibling)
                        },
                        None => None,
                    }
                }
            },
        }
    }

    /// Exchanges the places of two panes in the layout; the shape of the
    /// layout, the dividers and the contents of the panes stay. Where one of
    /// the two does not exist, nothing changes.
    pub fn swap(&mut self, a: &pane_grid::Pane, b: &pane_grid::Pane)
        requires
            old(self).wf(),
        ensures
            final(self).wf(),
            final(self).ratios() == old(self).ratios(),
            final(self)@ == (if old(self)@.panes.contains_key(*a) && old(self)@.panes.contains_key(
                *b,
            ) {
                old(self)@.swap(*a, *b)
            } else {
                old(self)@
            }),
    {
        if grid_get(&self.panes, a).is_some() && grid_get(&self.panes, b).is_some() {
            grid_swap(&mut self.panes, a, b);
            proof {
                lemma_swap_leaves(old(self)@.layout, *a, *b);
                assert forall|p: pane_grid::Pane|
                    self@.layout.leaf_set().contains(p) <==> self@.panes.dom().contains(p) by {
                    assert(self@.layout.has_leaf(p) <==> old(self)@.layout.has_leaf(
                        exchanged(p, *a, *b),
                    ));
                    assert(old(self)@.layout.has_leaf(*a));
                    assert(old(self)@.layout.has_leaf(*b));
                }
                assert(self@.layout.leaf_set() =~= self@.panes.dom());
            }
        }
    }

    /// Moves a divider as the resize event says: the divider that the event
    /// names, if the workspace has it and the ratio that the event carries
    /// lies strictly between nought and one, then stands at that ratio, and
    /// every other divider stands where it stood. For a divider that the
    /// workspace does not have, and for any other ratio, nothing changes.
    /// Neither the shape of the layout nor anything else that the view holds
    /// changes.
    pub fn resize(&mut self, event: &pane_grid::ResizeEvent)
        requires
            old(self).wf(),
        ensures
            final(self).wf(),
            final(self)@ == old(self)@,
            final(self).ratios() == resized(old(self).ratios(), resize_of(*event)),
    {
        let (_, ratio) = resize_parts(event);
        if 0 < ratio && ratio < ONE {
            grid_resize(&mut self.panes, event);
        }
    }

    /// Makes `pane` the maximized pane, in place of any other. Layout and
    /// dividers stay.
    pub fn maximize(&mut self, pane: &pane_grid::Pane)
        requires
            old(self).wf(),
        ensures
            final(self).wf(),
            final(self).ratios() == old(self).ratios(),
            final(self)@ == old(self)@.with_maximized(Some(*pane)),
    {
        grid_maximize(&mut self.panes, pane);
    }

    /// Shows all panes again. Layout and dividers stay.
    pub fn restore(&mut self)
        requires
            old(self).wf(),
        ensures
            final(self).wf(),
            final(self).ratios() == old(self).ratios(),
            final(self)@ == old(self)@.with_maximized(None),
    {
        grid_restore(&mut self.panes);
    }

    /// The nearest pane beside `pane` in `direction`, by the geometry of the
    /// layout; none at the edge of the workspace, in a workspace of one pane,
    /// or for a pane that does not exist.
    pub fn adjacent(&self, pane: &pane_grid::Pane, direction: Direction) -> (r: Option<
        pane_grid::Pane,
    >)
        requires
            self.wf(),
        ensures
            r == self.adjacent_pane(*pane, direction),
            r matches Some(p) ==> self@.panes.contains_key(p),
            !self@.panes.contains_key(*pane) ==> r is None,
            self@.layout is Leaf ==> r is None,
    {
        grid_find_adjacent(&self.panes, pane, direction)
    }

    /// Flips the pin of `pane`, if it exists.
    pub fn toggle_pin(&mut self, pane: &pane_grid::Pane)
        requires
            old(self).wf(),
        ensures
            final(self).wf(),
            final(self).ratios() == old(self).ratios(),
            final(self)@ == old(self)@.toggle_pin(*pane),
    {
        if let Some(panel) = grid_get(&self.panes, pane) {
            let flipped = Panel {
                id: panel.id,
                is_pinned: !panel.is_pinned,
                pane_type: panel.pane_type,
            };
            let _ = grid_put(&mut self.panes, pane, flipped);
            proof {
                assert(self@.panes.dom() =~= old(self)@.panes.dom());
            }
        }
    }

    /// Asks `pane` to show `kind`; see [`WorkspaceView::change_type`].
    pub fn change_type(&mut self, pane: &pane_grid::Pane, kind: PaneType)
        requires
            old(self).wf(),
        ensures
            final(self).wf(),
            final(self).ratios() == old(self).ratios(),
            final(self)@ == old(self)@.change_type(*pane, kind),
    {
        if let Some(panel) = grid_get(&self.panes, pane) {
            let changed = Panel { id: panel.id, is_pinned: panel.is_pinned, pane_type: kind };
            if kind != PaneType::Tasks {
                if panel.pane_type == PaneType::Tasks {
                    self.tasks_pane = None;
                }
                let _ = grid_put(&mut self.panes, pane, changed);
                proof {
                    assert(self@.panes.dom() =~= old(self)@.panes.dom());
                }
            } else if self.tasks_pane.is_none() {
                let _ = grid_put(&mut self.panes, pane, changed);
                self.tasks_pane = Some(*pane);
                proof {
                    assert(self@.panes.dom() =~= old(self)@.panes.dom());
                }
            }
        }
    }

    /// Gives focus to `pane`.
    pub fn click(&mut self, pane: pane_grid::Pane)
        ensures
            final(self).wf() == old(self).wf(),
            final(self).ratios() == old(self).ratios(),
            final(self)@ == old(self)@.with_focus(Some(pane)),
    {
        self.focus = Some(pane);
    }

    /// Takes focus away.
    pub fn unfocus(&mut self)
        ensures
            final(self).wf() == old(self).wf(),
            final(self).ratios() == old(self).ratios(),
            final(self)@ == old(self)@.with_focus(None),
    {
        self.focus = None;
    }

    /// Shows or hides the title bars.
    pub fn toggle_title_bar(&mut self)
        ensures
            final(self).wf() == old(self).wf(),
            final(self).ratios() == old(self).ratios(),
            final(self)@ == (WorkspaceView {
                show_title_bar: !old(self)@.show_title_bar,
                ..old(self)@
            }),
    {
        self.show_title_bar = !self.show_title_bar;
    }

    /// Splits the focused pane and moves focus to the pane added. Without a
    /// focus, or where the split is refused, nothing changes.
    pub fn split_focused(&mut self, axis: Axis) -> (r: Option<pane_grid::Pane>)
        requires
            old(self).wf(),
        ensures
            final(self).wf(),
            r is Some <==> old(self)@.focus is Some && old(self)@.panes.contains_key(
                old(self)@.focus->Some_0,
            ) && old(self)@.has_room(),
            match r {
                Some(fresh) => {
                    &&& !old(self)@.panes.contains_key(fresh)
                    &&& final(self)@ == old(self)@.split(
                        old(self)@.focus->Some_0,
                        axis,
                        fresh,
                    ).with_focus(Some(fresh))
                    &&& divider_added(old(self).ratios(), final(self).ratios())
                },
                None => final(self)@ == old(self)@ && final(self).ratios() == old(self).ratios(),
            },
    {
        match self.focus {
            Some(pane) => {
                let r = self.split(axis, &pane);
                if let Some(fresh) = r {
                    self.focus = Some(fresh);
                }
                r
            },
            None => None,
        }
    }

    /// Moves focus to `neighbour`, if there is a focus and a neighbour.
    pub fn move_focus(&mut self, neighbour: Option<pane_grid::Pane>)
        ensures
            final(self).wf() == old(self).wf(),
            final(self).ratios() == old(self).ratios(),
            final(self)@ == old(self)@.with_focus(
                match (old(self)@.focus, neighbour) {
                    (Some(_), Some(beside)) => Some(beside),
                    (focus, _) => focus,
                },
            ),
    {
        if self.focus.is_some() {
            if let Some(beside) = neighbour {
                self.focus = Some(beside);
            }
        }
    }

    /// Moves focus to the neighbour of the focused pane in `direction`, if
    /// there is a focus and it has such a neighbour.
    pub fn focus_adjacent(&mut self, direction: Direction)
        requires
            old(self).wf(),
        ensures
            final(self).wf(),
            final(self).ratios() == old(self).ratios(),
            final(self)@ == old(self)@.with_focus(
                match old(self)@.focus {
                    Some(pane) => match old(self).adjacent_pane(pane, direction) {
                        Some(neighbour) => Some(neighbour),
                        None => Some(pane),
                    },
                    None => None,
                },
            ),
    {
        if let Some(pane) = self.focus {
            let neighbour = self.adjacent(&pane, direction);
            self.move_focus(neighbour);
        }
    }

    /// Closes `pane` and moves focus to the sibling handed back. Where the
    /// pane cannot be closed, nothing changes.
    pub fn close_and_focus(&mut self, pane: &pane_grid::Pane)
        requires
            old(self).wf(),
        ensures
            final(self).wf(),
            final(self)@ == (if old(self)@.closable(*pane) {
                old(self)@.close(*pane).with_focus(Some(old(self)@.sibling(*pane)))
            } else {
                old(self)@
            }),
            old(self)@.closable(*pane) ==> final(self)@.panes.contains_key(
                old(self)@.sibling(*pane),
            ),
            if old(self)@.closable(*pane) {
                divider_gone(old(self).ratios(), final(self).ratios())
            } else {
                final(self).ratios() == old(self).ratios()
            },
    {
        if let Some(sibling) = self.close(pane) {
            self.focus = Some(sibling);
        }
    }

    /// Closes the focused pane and moves focus to its sibling. Without a
    /// focus, or where the focused pane cannot be closed, nothing changes.
    pub fn close_focused(&mut self)
        requires
            old(self).wf(),
        ensures
            final(self).wf(),
            final(self)@ == (match old(self)@.focus {
                Some(pane) => if old(self)@.closable(pane) {
                    old(self)@.close(pane).with_focus(Some(old(self)@.sibling(pane)))
                } else {
                    old(self)@
                },
                None => old(self)@,
            }),
            if old(self)@.focus is Some && old(self)@.closable(old(self)@.focus->Some_0) {
                divider_gone(old(self).ratios(), final(self).ratios())
            } else {
                final(self).ratios() == old(self).ratios()
            },
    {
        if let Some(pane) = self.focus {
            self.close_and_focus(&pane);
        }
    }

    /// Asks the focused pane to show `kind`; without a focus nothing changes.
    pub fn change_type_focused(&mut self, kind: PaneType)
        requires
            old(self).wf(),
        ensures
            final(self).wf(),
            final(self).ratios() == old(self).ratios(),
            final(self)@ == (match old(self)@.focus {
                Some(pane) => old(self)@.change_type(pane, kind),
                None => old(self)@,
            }),
    {
        if let Some(pane) = self.focus {
            self.change_type(&pane, kind);
        }
    }
}

} // verus!
