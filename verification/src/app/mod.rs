//! The application's navigation state and the rules that move it.
pub mod auto_restart;
pub mod compose_images;
pub mod daemon;
pub mod init;
pub mod input;
pub mod logs;
pub mod overlays;
pub mod pull_progress;
pub mod services;
pub mod state;
