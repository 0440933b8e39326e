//! Broker emulation: the frame codec, the entity extraction, the bus state
//! and the per-connection state machine of the data plane.

pub mod broker;
pub mod connection;
pub mod extract;
pub mod frames;
pub mod management;
