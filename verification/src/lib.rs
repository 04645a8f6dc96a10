//! Idle-time break content for AI coding sessions: the idle timer, the
//! content rotation, the feed and cache handling, the configuration
//! defaults and the registration of editor hooks, with their contracts.

pub mod api;
pub mod cli;
pub mod config;
pub mod content;
pub mod text;
pub mod timer;
pub mod tray;
