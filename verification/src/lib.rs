//! A binary message codec and a short authentication handshake for a client/server protocol.
//!
//! The library is a stack of four layers, each stated over the one below:
//!
//! - [`wire`] and [`field`]: the field codec engine. A message type is a table of fields;
//!   integers are little-endian, byte strings go behind a length prefix.
//! - [`message`] and [`codec`]: message types, and unions of message types in which each has
//!   an opcode of its own.
//! - [`packet`] and [`context`]: frames with a two-byte length that counts itself, and a
//!   connection as a pair of byte buffers.
//! - [`handshake`] and [`keys`]: the three messages that open a session, and the key
//!   material they carry.
//!
//! The library does no I/O: it turns values into bytes and bytes into values, and says which
//! bytes it waits for.

pub mod codec;
pub mod context;
pub mod error;
pub mod field;
pub mod handshake;
pub mod hexdump;
pub mod keys;
pub mod message;
pub mod packet;
pub mod prelude;
pub mod wire;
