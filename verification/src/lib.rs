//! The verified core of `hyprtuird`, a terminal UI that moves Hyprland
//! workspaces between monitors.
pub mod app;
pub mod client;
pub mod layout;
pub mod model;
pub mod order;
pub mod selection;
pub mod shell;
pub mod text;
pub mod theme;
pub mod view;
