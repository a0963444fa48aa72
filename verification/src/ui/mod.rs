//! Dialog widgets and the logic of the editor's dialogs.
pub mod cut;
pub mod dialog;
pub mod fill;
pub mod goto;
pub mod insert;
pub mod messagebox;
pub mod progress;
pub mod range;
pub mod saveas;
pub mod search;
pub mod setup;
pub mod widget;
