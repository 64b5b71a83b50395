//! An incremental, zero-copy encoder for the protocol-buffers wire format.
//!
//! Values are written straight into one growable output buffer as the caller
//! supplies them; length-delimited regions whose size is unknown until their
//! content is written are handled by a backpatching scope guard.

pub mod schema;
pub mod scalars;
pub mod simple_message;
pub mod tack;
pub mod typed_writers;
pub mod wire;
