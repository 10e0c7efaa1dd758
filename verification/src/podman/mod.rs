//! Podman and podman-compose: status parsing, event handling, inspect output and the
//! API socket, for Compose projects run under Podman.
pub mod client;
pub mod compose;
pub mod daemon;
pub mod events;
pub mod inspect;

use vstd::prelude::*;

verus! {

/// The Podman command.
pub const PODMAN_COMMAND: &'static str = "podman";

/// The Compose provider command.
pub const PODMAN_COMPOSE_COMMAND: &'static str = "podman-compose";

/// The label podman-compose puts on a project's containers.
pub const COMPOSE_PROJECT_LABEL: &'static str = "io.podman.compose.project";

/// The label Docker Compose puts on a project's containers.
pub const LEGACY_COMPOSE_PROJECT_LABEL: &'static str = "com.docker.compose.project";

} // verus!
