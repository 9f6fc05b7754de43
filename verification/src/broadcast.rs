//! The broadcast node: it collects the values it is told to broadcast, hands
//! them out on request, and learns its neighbours from the topology.

pub mod handler;
pub mod laws;
pub mod model;
pub mod payload;

pub use handler::BroadcastNode;
pub use model::{BroadcastError, BroadcastState};
pub use payload::{Payload, PayloadView, Topology};
