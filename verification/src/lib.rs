//! Verified core of a Wayland dock: configuration entries, launcher
//! resolution, exec-line parsing, process tracking and editing rules.

pub mod text;
pub mod config;
pub mod desktop;
pub mod launcher;
pub mod process;
pub mod editor;
pub mod ui;
pub mod icons;
pub mod picker;
