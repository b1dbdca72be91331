//! The state behind a live host-monitoring dashboard.
//!
//! Collectors read what system tools print ([`collect`]) and publish one
//! record per cycle into a [`store::SnapshotStore`]; a single consumer polls
//! the store and brings its derived views up to date ([`views`]). The panels
//! are arranged in a grid of panes ([`workspace::Workspace`]), one of which
//! may show the process table with its draggable column separators
//! ([`tasks::TasksListChart`], [`table`]). [`dashboard::Dashboard`] ties the
//! workspace and the views together and carries out the requests of the
//! user.
//!
//! Fractional quantities are carried as integers: shares in thousandths of
//! a percent, pixel coordinates in thousandths of a pixel and column
//! separators in millionths of the table width.

pub mod panel;
pub mod series;
pub mod text;
pub mod parse;
pub mod tasks;
pub mod table;
pub mod telemetry;
pub mod collect;
pub mod store;
pub mod views;
pub mod layout;
pub mod grid;
pub mod message;
pub mod hotkeys;
pub mod workspace;
pub mod dashboard;
