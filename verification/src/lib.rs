//! Commands for a networked infrared transmitter.
//!
//! The appliance takes one kind of command over TCP: a frame that carries the
//! waveform of a remote control's button, which it answers with a short
//! acknowledgement. This library holds the rules of that conversation and of
//! the service built on it:
//!
//! - [`crc`]: the 8-bit checksum that closes every frame;
//! - [`wire`]: the protocol's constants and its big-endian fields;
//! - [`frame`]: the command frame for a waveform;
//! - [`ack`]: the validation of the acknowledgement;
//! - [`transport`]: the exchange as a state machine over what a socket reports;
//! - [`registry`]: the table of known waveforms, by device and button;
//! - [`gateway`]: the answers of the service's HTTP face.
//!
//! Nothing here opens a socket or serves a request: every function is a
//! function of its arguments.

pub mod ack;
pub mod crc;
pub mod frame;
pub mod gateway;
pub mod registry;
pub mod transport;
pub mod wire;

pub use ack::{validate_ack, AckError};
pub use crc::calculate_crc;
pub use frame::{encode, get_payload, EncodeError, Payload, SendData};
pub use gateway::{Response, Settings};
pub use registry::{LookupError, Registry};
pub use transport::{recv_response, Exchange, TransportError};
