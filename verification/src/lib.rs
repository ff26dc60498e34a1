//! Verified core of Mimick, a daemon that watches local folders and uploads
//! new media files to an Immich server.

pub mod text;
pub mod keyed;
pub mod api_client;
pub mod config;
pub mod state_manager;
pub mod queue_manager;
pub mod monitor;
pub mod restart;
pub mod notifications;
pub mod settings_window;
