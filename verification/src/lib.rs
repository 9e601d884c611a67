//! A clipboard history library: the decisions that the clipboard watcher takes,
//! the store's statements and row mapping, settings rules, and encrypted sync.
pub mod text;
pub mod encoding;
pub mod models;
pub mod trusted;
pub mod clipboard;
pub mod watcher;
pub mod sync;
pub mod settings;
pub mod store;
pub mod table;
pub mod platform;
pub mod native;
pub mod commands;
