//! The signaling core: presence registries, topic rooms, the speaker lock,
//! and the decisions of each inbound event.
pub mod handlers;
pub mod hub;
pub mod names;
pub mod outbound;
pub mod rooms;
pub mod state;
