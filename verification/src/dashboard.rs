//! The dashboard: the workspace, the consumer's views, and what each request
//! does to them.

use crate::grid::resize_of;
use crate::layout::{divider_added, divider_gone, resized};
use crate::message::{DragEvent, Message};
use crate::panel::Panel;
use crate::store::SnapshotStore;
use crate::table::{
    lower_neighbour, step, upper_neighbour, Outcome, Point, PointerEvent, PointerState, Status,
    SEPARATORS,
};
use crate::tasks::{stable_sorted, ItemSort, TasksListChart};
use crate::telemetry::ChangedCategories;
use crate::views::{cpus_follow, disks_follow, tasks_follow, LocalData};
use crate::workspace::{Workspace, WorkspaceView};
use iced_native::widget::pane_grid;
use vstd::prelude::*;

verus! {

/// Whether `after` is the workspace that `message` leaves behind when it
/// reaches the workspace `before`, in which `neighbour` is the pane beside
/// the focused one in the direction that a focus move asks for.
///
/// A split of the focused pane adds a pane that was not there and gives it
/// focus. A pane dropped on another changes places with it. Closing moves
/// focus to the sibling. Requests that name a pane that does not exist, a
/// close of a pinned or of the only pane, a split without room, and the
/// requests to the process table leave the workspace as it is.
pub open spec fn workspace_follows(
    before: WorkspaceView,
    neighbour: Option<pane_grid::Pane>,
    message: Message,
    after: WorkspaceView,
) -> bool {
    match message {
        Message::SplitFocused(axis) => if before.focus is Some && before.panes.contains_key(
            before.focus->Some_0,
        ) && before.has_room() {
            &&& after.focus is Some
            &&& !before.panes.contains_key(after.focus->Some_0)
            &&& after == before.split(before.focus->Some_0, axis, after.focus->Some_0).with_focus(
                after.focus,
            )
        } else {
            after == before
        },
        Message::FocusAdjacent(_) => after == before.with_focus(
            match before.focus {
                Some(pane) => match neighbour {
                    Some(beside) => Some(beside),
                    None => Some(pane),
                },
                None => None,
            },
        ),
        Message::Clicked(pane) => after == before.with_focus(Some(pane)),
        Message::Dragged(DragEvent::Dropped { pane, target }) => after == (
        if before.panes.contains_key(pane) && before.panes.contains_key(target) {
            before.swap(pane, target)
        } else {
            before
        }),
        Message::Dragged(_) => after == before,
        Message::Resized(_) => after == before,
        Message::TogglePin(pane) => after == before.toggle_pin(pane),
        Message::Maximize(pane) => after == before.with_maximized(Some(pane)),
        Message::Restore => after == before.with_maximized(None),
        Message::Close(pane) => after == (if before.closable(pane) {
            before.close(pane).with_focus(Some(before.sibling(pane)))
        } else {
            before
        }),
        Message::CloseFocused => after == (match before.focus {
            Some(pane) => if before.closable(pane) {
                before.close(pane).with_focus(Some(before.sibling(pane)))
            } else {
                before
            },
            None => before,
        }),
        Message::UnFocus => after == before.with_focus(None),
        Message::ChangeType(pane, kind) => after == before.change_type(pane, kind),
        Message::ChangeTypeFocused(kind) => after == (match before.focus {
            Some(pane) => before.change_type(pane, kind),
            None => before,
        }),
        Message::DraggedTask(_, _) => after == before,
        Message::SortTasks(_) => after == before,
        Message::ToggleTitleBar => after == (WorkspaceView {
            show_title_bar: !before.show_title_bar,
            ..before
        }),
    }
}

/// Whether `after` are the ratios of the dividers that `message` leaves
/// behind when it reaches the workspace `before`, whose dividers stand at
/// the ratios `ratios`. A split that takes place adds a divider at one
/// half; a close that takes place takes one divider away; a request to move
/// a divider moves it if the workspace has it and the ratio asked for lies
/// strictly between nought and one. Every other divider, and all of them
/// for every other request, stand where they stood.
pub open spec fn dividers_follow(
    before: WorkspaceView,
    ratios: Map<pane_grid::Split, u32>,
    message: Message,
    after: Map<pane_grid::Split, u32>,
) -> bool {
    match message {
        Message::SplitFocused(_) => if before.focus is Some && before.panes.contains_key(
            before.focus->Some_0,
        ) && before.has_room() {
            divider_added(ratios, after)
        } else {
            after == ratios
        },
        Message::Close(pane) => if before.closable(pane) {
            divider_gone(ratios, after)
        } else {
            after == ratios
        },
        Message::CloseFocused => if before.focus is Some && before.closable(
            before.focus->Some_0,
        ) {
            divider_gone(ratios, after)
        } else {
            after == ratios
        },
        Message::Resized(event) => after == resized(ratios, resize_of(event)),
        _ => after == ratios,
    }
}

/// Whether `after` is the process table that `message` leaves behind when
/// it reaches the table `before`. A request to move a separator moves it if
/// the place lies strictly between the separator's neighbours; a request to
/// sort makes the column the sort key, flips the direction if the column was
/// the key already and else takes the column's own, and puts the processes
/// in that order. Without a table, and for all other requests, nothing
/// changes.
pub open spec fn table_follows(
    before: Option<TasksListChart>,
    message: Message,
    after: Option<TasksListChart>,
) -> bool {
    match (before, message) {
        (Some(table), Message::DraggedTask(selected, place)) => {
            &&& after is Some
            &&& after->Some_0.process_info == table.process_info
            &&& after->Some_0.item_sort == table.item_sort
            &&& after->Some_0.rev == table.rev
            &&& after->Some_0.separators@ == (if selected < SEPARATORS && lower_neighbour(
                table.separators@,
                selected as int,
            ) < place < upper_neighbour(table.separators@, selected as int) {
                table.separators@.update(selected as int, place)
            } else {
                table.separators@
            })
        },
        (Some(table), Message::SortTasks(column)) => {
            &&& after is Some
            &&& after->Some_0.separators == table.separators
            &&& after->Some_0.item_sort == ItemSort::by_spec(column)
            &&& after->Some_0.rev == (if table.item_sort == ItemSort::by_spec(column) {
                !table.rev
            } else {
                ItemSort::by_spec(column).descends_spec()
            })
            &&& stable_sorted(
                table.process_info@,
                after->Some_0.process_info@,
                after->Some_0.item_sort,
                after->Some_0.rev,
            )
        },
        _ => after == before,
    }
}

/// The workspace, the revision seen at the last poll, and the views.
pub struct Dashboard {
    workspace: Workspace,
    last_tick: u64,
    local_data: LocalData,
}

impl Dashboard {
    /// The grid of panes.
    pub closed spec fn spec_workspace(&self) -> &Workspace {
        &self.workspace
    }

    /// The revision of the store at the last poll that found something.
    pub closed spec fn spec_last_tick(&self) -> u64 {
        self.last_tick
    }

    /// The consumer's copy of the telemetry and what is derived from it.
    pub closed spec fn spec_local_data(&self) -> &LocalData {
        &self.local_data
    }

    /// The workspace is well-formed, and so is the process table if there is
    /// one.
    pub open spec fn wf(&self) -> bool {
        &&& self.workspace().wf()
        &&& self.local_data().tasks_chart matches Some(table) ==> table.wf()
    }

    /// The grid of panes.
    #[verifier::when_used_as_spec(spec_workspace)]
    pub fn workspace(&self) -> (r: &Workspace)
        ensures
            r == self.workspace(),
    {
        &self.workspace
    }

    /// The revision of the store at the last poll that found something.
    #[verifier::when_used_as_spec(spec_last_tick)]
    pub fn last_tick(&self) -> (r: u64)
        ensures
            r == self.last_tick(),
    {
        self.last_tick
    }

    /// The consumer's copy of the telemetry and what is derived from it.
    #[verifier::when_used_as_spec(spec_local_data)]
    pub fn local_data(&self) -> (r: &LocalData)
        ensures
            r == self.local_data(),
    {
        &self.local_data
    }

    /// A dashboard that has seen nothing of the store yet. Its workspace has
    /// one pane, numbered 0, not pinned and waiting for its content kind,
    /// no divider, nothing maximized, no focus, no pane on record for the
    /// process table, and hidden title bars. There are no charts and no
    /// process table.
    pub fn new() -> (r: Self)
        ensures
            r.wf(),
            r.last_tick() == 0,
            r.workspace()@.layout is Leaf,
            r.workspace()@.panes == Map::<pane_grid::Pane, Panel>::empty().insert(
                r.workspace()@.layout.first_leaf(),
                Panel::new_spec(0),
            ),
            r.workspace().ratios() == Map::<pane_grid::Split, u32>::empty(),
            r.workspace()@.maximized is None,
            r.workspace()@.focus is None,
            r.workspace()@.tasks_pane is None,
            r.workspace()@.panes_created == 1,
            !r.workspace()@.show_title_bar,
            r.local_data().current_data_copy@.cpu_usage.len() == 0,
            r.local_data().current_data_copy@.ram_usage.is_empty(),
            r.local_data().current_data_copy@.disk_usage.len() == 0,
            r.local_data().current_data_copy@.process_list.len() == 0,
            r.local_data().current_data_copy@.extra_infos.len() == 0,
            r.local_data().tasks_chart is None,
            r.local_data().memory_chart is None,
            r.local_data().cpu_charts@.len() == 0,
            r.local_data().disk_charts@.len() == 0,
    {
        Dashboard { workspace: Workspace::new(), last_tick: 0, local_data: LocalData::new() }
    }

    /// Carries out a request; see [`workspace_follows`],
    /// [`dividers_follow`] and [`table_follows`]. The copy of the telemetry,
    /// the charts and the revision seen stay.
    pub fn update(&mut self, message: Message)
        requires
            old(self).wf(),
        ensures
            final(self).wf(),
            workspace_follows(
                old(self).workspace()@,
                match (message, old(self).workspace()@.focus) {
                    (Message::FocusAdjacent(direction), Some(pane)) => old(self)
                        .workspace().adjacent_pane(pane, direction),
                    _ => None,
                },
                message,
                final(self).workspace()@,
            ),
            dividers_follow(
                old(self).workspace()@,
                old(self).workspace().ratios(),
                message,
                final(self).workspace().ratios(),
            ),
            table_follows(
                old(self).local_data().tasks_chart,
                message,
                final(self).local_data().tasks_chart,
            ),
            final(self).last_tick() == old(self).last_tick(),
            final(self).local_data().current_data_copy == old(self).local_data().current_data_copy,
            final(self).local_data().cpu_charts == old(self).local_data().cpu_charts,
            final(self).local_data().disk_charts == old(self).local_data().disk_charts,
            final(self).local_data().memory_chart == old(self).local_data().memory_chart,
    {
        match message {
            Message::SplitFocused(axis) => {
                let _ = self.workspace.split_focused(axis);
            },
            Message::FocusAdjacent(direction) => {
                self.workspace.focus_adjacent(direction);
            },
            Message::Clicked(pane) => {
                self.workspace.click(pane);
            },
            Message::Resized(event) => {
                self.workspace.resize(&event);
            },
            Message::Dragged(DragEvent::Dropped { pane, target }) => {
                self.workspace.swap(&pane, &target);
            },
            Message::Dragged(_) => {},
            Message::TogglePin(pane) => {
                self.workspace.toggle_pin(&pane);
            },
            Message::Maximize(pane) => {
                self.workspace.maximize(&pane);
            },
            Message::Restore => {
                self.workspace.restore();
            },
            Message::Close(pane) => {
                self.workspace.close_and_focus(&pane);
            },
            Message::CloseFocused => {
                self.workspace.close_focused();
            },
            Message::UnFocus => {
                self.workspace.unfocus();
            },
            Message::ChangeType(pane, kind) => {
                self.workspace.change_type(&pane, kind);
            },
            Message::ChangeTypeFocused(kind) => {
                self.workspace.change_type_focused(kind);
            },
            Message::DraggedTask(selected, place) => {
                let mut slot: Option<TasksListChart> = None;
                std::mem::swap(&mut self.local_data.tasks_chart, &mut slot);
                if let Some(mut table) = slot {
                    let _ = table.drag_separator(selected, place);
                    self.local_data.tasks_chart = Some(table);
                }
            },
            Message::SortTasks(column) => {
                let mut slot: Option<TasksListChart> = None;
                std::mem::swap(&mut self.local_data.tasks_chart, &mut slot);
                if let Some(mut table) = slot {
                    table.sort_by(column);
                    self.local_data.tasks_chart = Some(table);
                }
            },
            Message::ToggleTitleBar => {
                self.workspace.toggle_title_bar();
            },
        }
    }

    /// Answers an event over the process table; see [`step`]. Without a
    /// table, and in a state that names no separator of it, the event is not
    /// taken and nothing changes.
    pub fn table_event(
        &self,
        state: &mut PointerState,
        event: PointerEvent,
        extent: i32,
        cursor: Option<Point>,
    ) -> (r: (Status, Option<Message>))
        requires
            self.wf(),
        ensures
            match self.local_data().tasks_chart {
                Some(table) => if old(state).wf() {
                    &&& final(state).wf()
                    &&& (Outcome { state: *final(state), status: r.0, message: r.1 }) == step(
                        table.separators@,
                        *old(state),
                        event,
                        extent,
                        cursor,
                    )
                } else {
                    *final(state) == *old(state) && r.0 == Status::Ignored && r.1 is None
                },
                None => *final(state) == *old(state) && r.0 == Status::Ignored && r.1 is None,
            },
    {
        match &self.local_data.tasks_chart {
            Some(table) => {
                if state.is_well_formed() {
                    table.update(state, event, extent, cursor)
                } else {
                    (Status::Ignored, None)
                }
            },
            None => (Status::Ignored, None),
        }
    }

    /// Whether the store has moved since the last poll that found something.
    pub fn is_behind(&self, revision: u64) -> (r: bool)
        ensures
            r == (revision != self.last_tick()),
    {
        revision != self.last_tick
    }

    /// Polls the store on a timer tick. If the revision has not moved since
    /// the last poll, nothing changes. Otherwise the dashboard takes the
    /// snapshot and the revision, clears the marks of the store, and brings
    /// the view of every marked category up to the snapshot. Hands back the
    /// marks it found.
    pub fn tick(&mut self, store: &mut SnapshotStore) -> (r: ChangedCategories)
        requires
            old(self).wf(),
            old(store).wf(),
        ensures
            final(self).wf(),
            final(store).wf(),
            final(store)@ == old(store)@.after_poll(old(self).last_tick()),
            final(self).workspace() == old(self).workspace(),
            final(self).last_tick() == old(store)@.revision,
            !old(store)@.moved_since(old(self).last_tick()) ==> {
                &&& r == ChangedCategories::none_spec()
                &&& final(self).local_data() == old(self).local_data()
            },
            old(store)@.moved_since(old(self).last_tick()) ==> {
                &&& r == old(store)@.dirty
                &&& final(self).local_data().current_data_copy@ == old(store)@.data
                &&& if r.cpu {
                    cpus_follow(
                        old(self).local_data().cpu_charts@,
                        final(self).local_data().cpu_charts@,
                        old(store)@.data.cpu_usage,
                    )
                } else {
                    final(self).local_data().cpu_charts == old(self).local_data().cpu_charts
                }
                &&& if r.disks {
                    disks_follow(
                        final(self).local_data().disk_charts@,
                        old(store)@.data.disk_usage,
                    )
                } else {
                    final(self).local_data().disk_charts == old(self).local_data().disk_charts
                }
                &&& if r.memory {
                    final(self).local_data().memory_chart is Some
                        && final(self).local_data().memory_chart->Some_0.shows(
                        old(store)@.data.ram_usage,
                    )
                } else {
                    final(self).local_data().memory_chart == old(self).local_data().memory_chart
                }
                &&& if r.processes {
                    tasks_follow(
                        old(self).local_data().tasks_chart,
                        final(self).local_data().tasks_chart,
                        old(store)@.data.process_list,
                    )
                } else {
                    final(self).local_data().tasks_chart == old(self).local_data().tasks_chart
                }
            },
    {
        match store.poll(self.last_tick) {
            None => ChangedCategories::none(),
            Some(polled) => {
                self.last_tick = polled.revision;
                let changed = polled.changed;
                self.local_data.absorb(polled.snapshot, changed);
                changed
            },
        }
    }
}

} // verus!
