//! AirCore: files from one device to another nearby, over an encrypted channel.

pub mod app;
pub mod ble_flow;
pub mod ble_transport;
pub mod bytes;
pub mod crypto;
pub mod digest;
pub mod discovery;
pub mod error;
pub mod flow;
pub mod gatt;
pub mod hotspot;
pub mod lan;
pub mod laws;
pub mod noise;
pub mod paths;
pub mod request;
pub mod session;
pub mod status;
pub mod text;
pub mod transfer;
pub mod transport;

pub use crypto::{perform_handshake_initiator, perform_handshake_responder, SecureChannel};
pub use transport::Transport;
