use super::{opcode_of, Codec, MessageModel, TableModel};
use crate::error::Error;
use crate::field::{append, lemma_decode_failures};
use crate::wire::IntKind;
use vstd::prelude::*;
use vstd::slice::{slice_subrange, slice_to_vec};
use vstd::std_specs::convert::FromSpecImpl;

verus! {

/// The union `C` with a catch-all member added: a message whose opcode no message type of
/// `C` claims is kept as it came, opcode and bytes, instead of being refused.
#[derive(Clone, Debug, PartialEq, Eq)]
pub enum WithUnknown<C> {
    /// A message of the union `C`.
    Known(C),
    /// The catch-all: the opcode, and the bytes that followed it, not read.
    Unknown { opcode: i8, data: Vec<u8> },
}

impl<C> WithUnknown<C> {
    /// The message of the union `C`, or `None` for the catch-all.
    pub open spec fn spec_known(self) -> Option<C> {
        match self {
            WithUnknown::Known(message) => Some(message),
            WithUnknown::Unknown { opcode, data } => None,
        }
    }

    /// The message of the union `C` that this is; `TypeMismatch` for the catch-all.
    pub fn into_known(self) -> (r: Result<C, Error>)
        ensures
            match self.spec_known() {
                Some(message) => r matches Ok(m) && m == message,
                None => r matches Err(e) && e == Error::TypeMismatch,
            },
    {
        match self {
            WithUnknown::Known(message) => Ok(message),
            WithUnknown::Unknown { opcode, data } => Err(Error::TypeMismatch),
        }
    }
}

impl<C> From<C> for WithUnknown<C> {
    fn from(message: C) -> (r: WithUnknown<C>) {
        WithUnknown::Known(message)
    }
}

impl<C> FromSpecImpl<C> for WithUnknown<C> {
    open spec fn obeys_from_spec() -> bool {
        true
    }

    open spec fn from_spec(message: C) -> WithUnknown<C> {
        WithUnknown::Known(message)
    }
}

impl<C: Codec> Codec for WithUnknown<C> {
    open spec fn union() -> TableModel {
        TableModel { types: C::union().types, catch_all: true }
    }

    open spec fn model(&self) -> MessageModel {
        match self {
            WithUnknown::Known(message) => message.model(),
            WithUnknown::Unknown { opcode, data } => MessageModel::Unknown {
                opcode: *opcode,
                data: data@,
            },
        }
    }

    proof fn lemma_member(&self) {
    }

    fn encode(&self) -> (r: Result<Vec<u8>, Error>) {
        match self {
            WithUnknown::Known(message) => {
                proof {
                    message.lemma_member();
                }
                message.encode()
            },
            WithUnknown::Unknown { opcode, data } => {
                let mut bytes: Vec<u8> = Vec::new();
                IntKind::I8.encode(*opcode as i128, &mut bytes);
                append(&mut bytes, data.as_slice());
                Ok(bytes)
            },
        }
    }

    fn decode(data: &[u8]) -> (r: Result<Self, Error>) {
        proof {
            if data@.len() > 0 {
                let schema = C::union().schema_of(opcode_of(data@));
                if schema.is_some() {
                    lemma_decode_failures(schema->Some_0, data@.skip(1));
                }
            }
        }
        match C::decode(data) {
            Ok(message) => Ok(WithUnknown::Known(message)),
            Err(Error::UnknownOpcode(_)) => {
                let opcode: i8 = IntKind::I8.decode(data, 0) as i8;
                let body: &[u8] = slice_subrange(data, 1, data.len());
                proof {
                    assert(data@.subrange(0, 1) =~= data@.take(1));
                    assert(data@.subrange(1, data@.len() as int) =~= data@.skip(1));
                }
                Ok(WithUnknown::Unknown { opcode, data: slice_to_vec(body) })
            },
            Err(e) => Err(e),
        }
    }
}

} // verus!
