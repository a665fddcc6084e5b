//! The decision-making core of redoxide, a proxy that stands in front of one Minecraft server,
//! starts its container when a player logs in and stops it when the last one has left.

pub mod config;
pub mod docker;
pub mod json;
pub mod lifecycle;
pub mod probe;
pub mod protocol;
pub mod proxy;
pub mod state;
pub mod status;
pub mod text;
pub mod transitions;
pub mod version_cache;
