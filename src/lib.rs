//! Bit-banged, half-duplex, single-wire communication over one GPIO line.
//!
//! The line is owned by a [`wire::HalfDuplexWire`]; the timing protocol is
//! expressed as verified state machines ([`encode::Encoder`],
//! [`decode::Decoder`]) that tell the caller which pin or delay action to
//! perform next and consume what the caller observed.
pub mod error;
pub mod edge;
pub mod wire;
pub mod encode;
pub mod decode;
pub mod collect;
pub mod sim;
