//! Obfuscated-transport handshake for a length-framed binary protocol.
//!
//! A client opens a raw byte stream and sends a 64-byte random header.
//! Both sides derive one stream-cipher state per direction from that header,
//! conceal a one-byte length-framing layer under the ciphers, and exchange
//! two fixed-layout messages: a public-key request and its response.

pub mod cipher;
pub mod codec;
pub mod driver;
pub mod err;
pub mod framing;
pub mod keys;
pub mod msg;
