//! Docker and Docker Compose: status parsing and event handling for Compose projects run
//! under Docker.
pub mod client;
pub mod events;
