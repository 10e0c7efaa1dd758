pub mod app;
pub mod auto_restart;
pub mod boot;
pub mod cli;
pub mod config;
pub mod docker;
pub mod listener;
pub mod podman;
pub mod service;
pub mod status;
pub mod systemd;
pub mod text;
pub mod toast;
pub mod ui;
