//! The panels of the workspace and what each one shows.

use vstd::prelude::*;

verus! {

/// What a pane displays.
#[derive(Debug, Clone, Copy, PartialEq, Eq, Structural)]
pub enum PaneType {
    Selection,
    Cpu,
    Memory,
    Disks,
    Info,
    Tasks,
}

impl PaneType {
    /// The caption of this content kind.
    pub open spec fn label_text(self) -> Seq<char> {
        match self {
            PaneType::Selection => "Select pane type"@,
            PaneType::Cpu => "CPU"@,
            PaneType::Memory => "Memory"@,
            PaneType::Disks => "Partitions"@,
            PaneType::Info => "System information"@,
            PaneType::Tasks => "Tasks"@,
        }
    }

    /// The caption shown for this content kind in a pane's pick list.
    pub fn label(&self) -> (r: String)
        ensures
            r@ == self.label_text(),
    {
        match self {
            PaneType::Selection => "Select pane type".to_owned(),
            PaneType::Cpu => "CPU".to_owned(),
            PaneType::Memory => "Memory".to_owned(),
            PaneType::Disks => "Partitions".to_owned(),
            PaneType::Info => "System information".to_owned(),
            PaneType::Tasks => "Tasks".to_owned(),
        }
    }

    /// Every content kind, in the order of the pick list.
    pub fn all() -> (r: [PaneType; 6])
        ensures
            r@ == seq![
                PaneType::Selection,
                PaneType::Cpu,
                PaneType::Memory,
                PaneType::Disks,
                PaneType::Info,
                PaneType::Tasks,
            ],
    {
        [
            PaneType::Selection,
            PaneType::Cpu,
            PaneType::Memory,
            PaneType::Disks,
            PaneType::Info,
            PaneType::Tasks,
        ]
    }
}

/// The content of one leaf of the workspace.
#[derive(Debug, Clone, Copy, PartialEq, Eq, Structural)]
pub struct Panel {
    /// The number under which the pane was created; never used twice.
    pub id: usize,
    /// A pinned pane cannot be closed.
    pub is_pinned: bool,
    /// What the pane displays.
    pub pane_type: PaneType,
}

impl Panel {
    /// The content of a fresh pane with the number `id`.
    pub open spec fn new_spec(id: usize) -> Self {
        Panel { id, is_pinned: false, pane_type: PaneType::Selection }
    }

    /// A fresh pane: not pinned, waiting for its content kind to be chosen.
    #[verifier::when_used_as_spec(new_spec)]
    pub fn new(id: usize) -> (r: Self)
        ensures
            r == Self::new_spec(id),
    {
        Self { id, is_pinned: false, pane_type: PaneType::Selection }
    }
}

/// What the button beside the pick list of a pane offers.
#[derive(Debug, Clone, Copy, PartialEq, Eq, Structural)]
pub enum Toggle {
    /// Show the pane alone.
    Maximize,
    /// Show all panes again.
    Restore,
}

/// The controls in the title bar of a pane.
#[derive(Debug, Clone, Copy, PartialEq, Eq, Structural)]
pub struct Controls {
    /// The button that maximizes or restores, if there is one.
    pub toggle: Option<Toggle>,
    /// Whether the pin button unpins.
    pub unpins: bool,
    /// Whether the close button can be pressed.
    pub can_close: bool,
}

/// The controls of a pane, where `total_panes` panes were created so far.
/// While only one pane was ever created there is nothing to maximize and
/// nothing to close; a pinned pane cannot be closed either.
pub open spec fn controls(total_panes: usize, is_pinned: bool, is_maximized: bool) -> Controls {
    Controls {
        toggle: if total_panes > 1 {
            Some(
                if is_maximized {
                    Toggle::Restore
                } else {
                    Toggle::Maximize
                },
            )
        } else {
            None
        },
        unpins: is_pinned,
        can_close: total_panes > 1 && !is_pinned,
    }
}

/// The controls of a pane, where `total_panes` panes were created so far.
pub fn pane_controls(total_panes: usize, is_pinned: bool, is_maximized: bool) -> (r: Controls)
    ensures
        r == controls(total_panes, is_pinned, is_maximized),
{
    let toggle = if total_panes > 1 {
        if is_maximized {
            Some(Toggle::Restore)
        } else {
            Some(Toggle::Maximize)
        }
    } else {
        None
    };
    Controls { toggle, unpins: is_pinned, can_close: total_panes > 1 && !is_pinned }
}

} // verus!
