//! Window, focus, shortcut and log bookkeeping for a desktop launcher of
//! "quick" web windows, with its contracts proved by Verus.

pub mod datetime;
pub mod error;
pub mod text;
pub mod log;
pub mod focus;
pub mod focus_events;
pub mod labels;
pub mod app_window;
pub mod models;
pub mod manager;
pub mod window_manager;
pub mod quick_window;
pub mod shortcut;
pub mod types;
pub mod proxy;
pub mod settings;
pub mod setup;
pub mod curd_proxies;
pub mod curd_windows;
pub mod screen;
pub mod migration;
pub mod services;
pub mod laws;
