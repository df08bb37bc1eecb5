//! Brightness and contrast control for external monitors.

pub mod ambient;
pub mod config;
pub mod ddc;
pub mod flyout;
pub mod icon;
pub mod logging;
pub mod max_level;
pub mod monitor;
pub mod session;
pub mod settings;
pub mod snapshot;
pub mod text;
pub mod view;
pub mod watcher;
pub mod window;
