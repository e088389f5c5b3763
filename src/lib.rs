//! A real-time signaling coordinator: presence of users and devices, topic
//! rooms keyed by device, an exclusive speaker lock per topic, and the
//! decisions of each inbound event, all as verified in-memory state; with the
//! small HTTP-side pieces around it (configuration, credentials, errors).
pub mod api;
pub mod config;
pub mod registry;
pub mod db;
pub mod restful;
pub mod socketio;
