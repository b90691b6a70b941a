//! Core logic of a terminal password manager for KeePass vaults: the
//! editable text field, note wrapping, key handling, entry filtering and
//! the screen state machine.

pub mod input;
pub mod text;
pub mod width;
pub mod export;
pub mod config;
pub mod db;
pub mod app;
pub mod cli;
pub mod clipboard;
pub mod ui;
pub mod warnings;

