//! A desktop shell's core: a lazily expanding directory tree, the tabs that hold
//! such trees, and the menu interaction state machine that drives named actions.
//!
//! The library reads no files, shows no dialogs and draws nothing: callers do
//! that and hand it plain values.

pub mod text;
pub mod menu;
pub mod tree;
pub mod loader;
pub mod explorer;
pub mod interaction;
pub mod utils;
pub mod math;
pub mod action;
pub mod app;
pub mod ui;
pub mod config;

pub use crate::app::MyApp;
pub use crate::menu::{MenuItem, MenuType};
