//! Progressive middle-button autoscroll: the input gesture engine, its
//! configuration rules, event routing, and the daemon's decision helpers.

pub mod config;
pub mod engine;
pub mod model;
pub mod wheel;
pub mod text;
pub mod foreground;
pub mod hyprland;
pub mod sway;
pub mod event_router;
pub mod cli;
pub mod indicator;
pub mod config_loader;
pub mod daemon;
pub mod device;
