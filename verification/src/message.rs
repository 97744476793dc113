//! Message types: a message type is a table of fields, and a message is written and read by
//! the field codec engine from that table.

mod client_hello;
mod client_ready;
mod server_hello;

pub use self::client_hello::ClientHello;
pub use self::client_ready::ClientReady;
pub use self::server_hello::Checksum;
pub use self::server_hello::ServerHello;

use crate::error::Error;
use crate::field::{
    deserialize, is_bytes, lemma_decode_fields_len, lemma_roundtrip, models, serialize,
    spec_deserialize, spec_serialize, within_size_limit, FieldDescriptor, FieldModel, FieldValue,
};
use vstd::prelude::*;

verus! {

/// Whether `values` are values for the fields of `schema`: as many, and each of its field's
/// wire kind.
pub open spec fn conforms_to(schema: Seq<FieldDescriptor>, values: Seq<FieldModel>) -> bool {
    &&& schema.len() == values.len()
    &&& forall|i: int| 0 <= i < schema.len() ==> (#[trigger] values[i]).conforms(schema[i].kind)
}

/// A message type. An implementation gives the table of its fields and the two conversions
/// between a message and its field values; writing and reading follow from them.
pub trait Message: Sized {
    /// The fields of the message type, in the order in which they stand on the wire.
    spec fn spec_schema() -> Seq<FieldDescriptor>;

    /// The values of the fields of this message, in the order of the table.
    spec fn fields(&self) -> Seq<FieldModel>;

    /// The values of a message are values for the fields of its type.
    proof fn lemma_conforms(&self)
        ensures
            conforms_to(Self::spec_schema(), self.fields()),
    ;

    /// The fields of the message type, in the order in which they stand on the wire.
    fn schema() -> (r: Vec<FieldDescriptor>)
        ensures
            r@ == Self::spec_schema(),
    ;

    /// The values of the fields of this message, in the order of the table.
    fn to_fields(&self) -> (r: Vec<FieldValue>)
        ensures
            models(r@) == self.fields(),
    ;

    /// The message with the given field values; `None` unless they are values for the fields
    /// of the table.
    fn from_fields(values: Vec<FieldValue>) -> (r: Option<Self>)
        ensures
            r.is_some() == conforms_to(Self::spec_schema(), models(values@)),
            r matches Some(m) ==> m.fields() == models(values@),
    ;

    /// The bytes of the message: those of its fields, in the order of the table.
    ///
    /// Fails with `LengthOverflow` for the first byte string whose length its prefix type
    /// cannot say.
    fn serialize(&self) -> (r: Result<Vec<u8>, Error>)
        ensures
            is_bytes(r, spec_serialize(Self::spec_schema(), self.fields())),
    {
        let schema = Self::schema();
        let values = self.to_fields();
        serialize(schema.as_slice(), values.as_slice())
    }

    /// The message that stands at the start of `data`, and the number of bytes it takes;
    /// bytes behind it are not looked at.
    ///
    /// Fails as the field codec engine does, with the failure of the first field that cannot
    /// be read, and returns no message unless every field was read.
    fn deserialize_prefix(data: &[u8]) -> (r: Result<(Self, usize), Error>)
        ensures
            match spec_deserialize(Self::spec_schema(), data@) {
                Ok((values, used)) => r matches Ok((m, n)) && m.fields() == values && n == used,
                Err(e) => r matches Err(x) && x == e,
            },
    {
        let schema = Self::schema();
        match deserialize(schema.as_slice(), data) {
            Ok((values, used)) => {
                proof {
                    lemma_decode_fields_len(schema@, data@);
                }
                match Self::from_fields(values) {
                    Some(message) => Ok((message, used)),
                    None => vstd::pervasive::unreached(),
                }
            },
            Err(e) => Err(e),
        }
    }

    /// The message that stands at the start of `data`; bytes behind it are not looked at.
    ///
    /// Fails as `deserialize_prefix` does.
    fn deserialize(data: &[u8]) -> (r: Result<Self, Error>)
        ensures
            match spec_deserialize(Self::spec_schema(), data@) {
                Ok((values, used)) => r matches Ok(m) && m.fields() == values,
                Err(e) => r matches Err(x) && x == e,
            },
    {
        match Self::deserialize_prefix(data) {
            Ok((message, _)) => Ok(message),
            Err(e) => Err(e),
        }
    }
}

/// Round trip, for every message type: the bytes that a message was written as are read as a
/// message with the same field values, whatever follows them, and all of them are taken.
///
/// A message that holds a byte string above the size limit is left out: it may be written,
/// but the reader refuses it.
pub proof fn lemma_message_roundtrip<M: Message>(message: M, rest: Seq<u8>)
    requires
        spec_serialize(M::spec_schema(), message.fields()).is_ok(),
        within_size_limit(message.fields()),
    ensures
        spec_deserialize(
            M::spec_schema(),
            spec_serialize(M::spec_schema(), message.fields())->Ok_0 + rest,
        ) == Ok::<(Seq<FieldModel>, nat), Error>(
            (message.fields(), spec_serialize(M::spec_schema(), message.fields())->Ok_0.len()),
        ),
{
    lemma_roundtrip(M::spec_schema(), message.fields(), rest);
}

/// Values that are values for the fields of a table are written unless a byte string among
/// them is too long for its prefix: no other failure arises.
pub proof fn lemma_conforming_serialize(schema: Seq<FieldDescriptor>, values: Seq<FieldModel>)
    requires
        conforms_to(schema, values),
    ensures
        spec_serialize(schema, values) matches Err(e) ==> e is LengthOverflow,
    decreases schema.len(),
{
    if schema.len() > 0 {
        assert(conforms_to(schema.drop_last(), values.drop_last())) by {
            assert forall|i: int| 0 <= i < schema.drop_last().len() implies (
            #[trigger] values.drop_last()[i]).conforms(schema.drop_last()[i].kind) by {
                assert(values[i].conforms(schema[i].kind));
            }
        }
        lemma_conforming_serialize(schema.drop_last(), values.drop_last());
        assert(values.last().conforms(schema.last().kind));
    }
}

/// Writing a message fails in one way only: a byte string in it is too long for its prefix.
pub proof fn lemma_message_failure<M: Message>(message: M)
    ensures
        spec_serialize(M::spec_schema(), message.fields()) matches Err(e) ==> e is LengthOverflow,
{
    message.lemma_conforms();
    lemma_conforming_serialize(M::spec_schema(), message.fields());
}

} // verus!
