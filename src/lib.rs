//! Session core of a NetworkTables 4 client: identifier allocation, clock
//! synchronisation, the binary value-frame codec, the JSON control messages
//! and the topic and subscription registries.

pub mod clock;
pub mod frame;
pub mod ids;
pub mod json;
pub mod session;
pub mod topic;
pub mod types;
