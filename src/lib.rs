//! Client side of the EtherNet/IP encapsulation protocol and of CIP
//! connected (class 1) messaging: the wire codec, the per-controller session
//! state, the consumer connection state and the registry that routes
//! inbound cyclic datagrams to their consumer.
pub mod wire;
pub mod eip;
pub mod address;
pub mod consumer;
pub mod plc;
pub mod service;

pub use address::{EipAddr, IpAddress};
pub use consumer::{Consumer, ConsumerHint, ConsumerQueue};
pub use plc::Plc;
pub use service::Registry;
