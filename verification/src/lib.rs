//! The logic of a download manager's New Task sheet, its Settings controls and its updater:
//! what the fields accept, how a build is found newer and where its files are fetched from,
//! and where the running program sits when it is replaced.

pub mod identity;
pub mod text;
pub mod ui;
pub mod update;
pub mod watch;
