//! The requests that user input turns into.

use crate::layout::{Axis, Direction};
use crate::panel::PaneType;
use iced_native::widget::pane_grid;
use vstd::prelude::*;

verus! {

/// What became of a pane that was dragged.
#[derive(Debug, Clone, Copy)]
pub enum DragEvent {
    /// The pane was picked up.
    Picked { pane: pane_grid::Pane },
    /// The pane was dropped on `target`.
    Dropped { pane: pane_grid::Pane, target: pane_grid::Pane },
    /// The pane was dropped outside every pane.
    Canceled { pane: pane_grid::Pane },
}

/// A request to the dashboard.
#[derive(Debug, Clone, Copy)]
pub enum Message {
    /// Split the focused pane along an axis.
    SplitFocused(Axis),
    /// Move focus to the neighbour in a direction.
    FocusAdjacent(Direction),
    /// A pane was clicked.
    Clicked(pane_grid::Pane),
    /// A pane was dragged.
    Dragged(DragEvent),
    /// A divider was dragged.
    Resized(pane_grid::ResizeEvent),
    /// Flip the pin of a pane.
    TogglePin(pane_grid::Pane),
    /// Show one pane alone.
    Maximize(pane_grid::Pane),
    /// Show all panes again.
    Restore,
    /// Close a pane.
    Close(pane_grid::Pane),
    /// Close the focused pane.
    CloseFocused,
    /// Take focus away.
    UnFocus,
    /// Change what a pane shows.
    ChangeType(pane_grid::Pane, PaneType),
    /// Change what the focused pane shows.
    ChangeTypeFocused(PaneType),
    /// Move a column separator of the process table to a new place, in
    /// millionths of the table width.
    DraggedTask(usize, u32),
    /// Order the process table by a column.
    SortTasks(usize),
    /// Show or hide the title bars.
    ToggleTitleBar,
}

} // verus!
