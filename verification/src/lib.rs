//! Plus7z core: the rules behind the archive manager, stated and proved with
//! Verus. The engine's listings and command lines, the checks before an
//! extraction, the steps of the operations, how the window takes launches,
//! the rows of an archive folder, the history lists, the file list's order, selection and
//! navigation, keyboard shortcuts, the command line, the Explorer menu and
//! registration, themes, and the texts that the window shows.

pub mod text;
pub mod scan;
pub mod order;
pub mod size;
pub mod catalog;
pub mod listing;
pub mod engine;
pub mod history;
pub mod browser;
pub mod shortcuts;
pub mod launch;
pub mod operations;
pub mod dispatch;
pub mod pages;
pub mod display;
pub mod theme;
pub mod shell_menu;
pub mod registry;
