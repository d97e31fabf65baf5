//! Reading CAN bus databases and packing signal values into frame payloads.
//!
//! The crate works on raw integer signal values throughout. Scale factors,
//! offsets and value limits of a signal are carried as the decimal numbers
//! that the database writes, digit for digit, so that a caller can apply
//! them in the arithmetic of its choice.

pub mod codec;
pub mod name_map;
pub mod parser;
pub mod dbc;
pub mod mapper;
pub mod text;
