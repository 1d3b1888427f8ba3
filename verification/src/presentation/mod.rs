//! Presentation decisions that need no window: selection movement, theme
//! tokens, localized messages, management rules and the settings pages'
//! small state machines.

pub mod commands;
pub mod i18n;
pub mod management;
pub mod manager;
pub mod settings_controller;
pub mod state;
pub mod theme;
pub mod view_model;
