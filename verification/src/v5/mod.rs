//! MQTT v5 wire format: packet types, properties, and the framing codec.

pub mod auth;
pub mod connack;
pub mod connect;
pub mod decoder;
pub mod disconnect;
pub mod encoder;
pub mod error;
pub mod laws;
pub mod property;
pub mod publish;
pub mod pubres;
pub mod string;
pub mod subscribe;
pub mod types;
pub mod unsubscribe;
pub mod will;
