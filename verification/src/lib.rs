//! Process list engine of a terminal resource dashboard: snapshots of the
//! process table are filtered, grouped and sorted into display rows, and a
//! view state tracks selection and scrolling across refreshes.

pub mod app;
pub mod command;
pub mod engine;
pub mod help_menu;
pub mod layout;
pub mod record;
pub mod row;
pub mod sort;
pub mod terminate;
pub mod text;
pub mod update;
pub mod view;
