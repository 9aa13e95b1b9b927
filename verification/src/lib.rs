//! The logic of WindowsClear, a tool that moves large application data folders
//! to another drive and leaves a directory junction behind.

pub mod batch;
pub mod history;
pub mod i18n;
pub mod mover;
pub mod proc_mgr;
pub mod scanner;
pub mod text;
pub mod ui;
pub mod units;
