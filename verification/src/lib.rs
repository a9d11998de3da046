//! Core of an MQTT v5 client: a bit-exact wire codec for the fifteen control
//! packets, a packet-identifier allocator, and the QoS publish handshake
//! decisions, all with verified contracts.

pub mod identifier;
pub mod qos;
pub mod v5;
