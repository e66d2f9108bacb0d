//! Verified core of a small container-orchestration demo: container phases and
//! their wire form, the lifecycle state machines, the world model the daemon
//! drives, log merging, the mock and mirror backends' plans, packet framing and
//! the plain and terminal renderers' frame plans.

pub mod phase;
pub mod protocol;
pub mod backend;
pub mod packet;
pub mod lifecycle;
pub mod logs;
pub mod world;
pub mod message;
pub mod machines;
pub mod commands;
pub mod random;
pub mod systems;
pub mod events;
pub mod merged;
pub mod sort;
pub mod text;
pub mod render;
pub mod tui;
pub mod session;
