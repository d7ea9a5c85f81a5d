//! Bridge between a desktop program that speaks a compact binary record
//! format on its standard streams and browsers connected over WebSocket.
//!
//! The library holds the logic: decoding of the binary strings and records,
//! the shared record list and its change events, the broadcast registry,
//! the HTTP routing and upgrade handshake, and the reply frames sent back.
pub mod decoder;
pub mod feed;
pub mod relay;
pub mod text;
pub mod gate;
pub mod hub;
pub mod bridge;
pub mod installer;
