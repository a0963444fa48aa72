//! Hexadecimal editor core: change tracking, cursor movement, text
//! formats and dialog logic.
use vstd::prelude::*;

pub mod buffer;
pub mod changes;
pub mod cmdline;
pub mod config;
pub mod controller;
pub mod curses;
pub mod dialog;
pub mod editor;
pub mod file;
pub mod goto;
pub mod history;
pub mod inifile;
pub mod messagebox;
pub mod cui;
pub mod cursor;
pub mod num;
pub mod page;
pub mod progress;
pub mod search;
pub mod settings;
pub mod text;
pub mod ui;
pub mod view;
pub mod widget;

verus! {

} // verus!
