//! The names that most users of the library need, in one place.

pub use crate::codec::{AnyMessage, Codec, Login, OpcodeTable, WithUnknown};
pub use crate::context::ContextedStream;
pub use crate::error::Error;
pub use crate::field::{FieldDescriptor, FieldValue, WireKind};
pub use crate::handshake::{Context, Handshake, Role, State};
pub use crate::keys::{PublicKey, Signature};
pub use crate::message::{Checksum, ClientHello, ClientReady, Message, ServerHello};
pub use crate::packet::{Encryption, Packet, Payload};
pub use crate::wire::IntKind;
