//! What the terminal interface shows: labels, markers, truncation, colours and progress.
pub mod controls;
pub mod layout;
pub mod logs;
pub mod services;
pub mod status_bar;
pub mod style;
pub mod theme;
