//! The message codec: a union of message types, each with an opcode of its own. A message is
//! written as its opcode byte and the bytes of its fields, and read by looking the opcode
//! byte up in the table of the union.

mod login;
mod unknown;

pub use self::login::Login;
pub use self::unknown::WithUnknown;

use crate::error::Error;
use crate::field::{
    append, deserialize, is_bytes, lemma_decode_failures, lemma_roundtrip, models, serialize,
    spec_deserialize, spec_serialize, within_size_limit, FieldDescriptor, FieldModel, FieldValue,
};
use crate::wire::{lemma_int_roundtrip, IntKind};
use vstd::prelude::*;
use vstd::slice::{slice_subrange, slice_to_vec};

verus! {

/// The opcode that no message type may claim: it is kept for "unrecognized".
pub const RESERVED_OPCODE: i8 = -128;

/// One message type of a union: its opcode and the table of its fields.
#[derive(Clone, Debug, PartialEq, Eq)]
pub struct MessageType {
    /// The opcode that the message type claims.
    pub opcode: i8,
    /// The fields of the message type, in the order in which they stand on the wire.
    pub schema: Vec<FieldDescriptor>,
}

/// What a message type is, mathematically.
pub struct MessageTypeModel {
    /// The opcode that the message type claims.
    pub opcode: i8,
    /// The fields of the message type, in the order in which they stand on the wire.
    pub schema: Seq<FieldDescriptor>,
}

impl View for MessageType {
    type V = MessageTypeModel;

    open spec fn view(&self) -> MessageTypeModel {
        MessageTypeModel { opcode: self.opcode, schema: self.schema@ }
    }
}

/// What a union is, mathematically: its message types, and whether it has a catch-all member
/// for the opcodes that none of them claims.
pub struct TableModel {
    /// The message types, in the order in which they were declared.
    pub types: Seq<MessageTypeModel>,
    /// Whether an opcode that no message type claims is read as the catch-all.
    pub catch_all: bool,
}

/// What a message of a union is, mathematically.
pub enum MessageModel {
    /// A message of the type with the given opcode.
    Known { opcode: i8, fields: Seq<FieldModel> },
    /// The catch-all: an opcode, and the bytes that followed it, not read.
    Unknown { opcode: i8, data: Seq<u8> },
}

/// The fields of the first message type among `types` that claims `opcode`.
pub open spec fn find_schema(types: Seq<MessageTypeModel>, opcode: i8) -> Option<
    Seq<FieldDescriptor>,
>
    decreases types.len(),
{
    if types.len() == 0 {
        None
    } else {
        match find_schema(types.drop_last(), opcode) {
            Some(schema) => Some(schema),
            None => if types.last().opcode == opcode {
                Some(types.last().schema)
            } else {
                None
            },
        }
    }
}

/// The byte that stands for `opcode` on the wire.
pub open spec fn opcode_byte(opcode: i8) -> u8 {
    IntKind::I8.encoding(opcode as int)[0]
}

/// The opcode that the first byte of `data` stands for.
pub open spec fn opcode_of(data: Seq<u8>) -> i8 {
    IntKind::I8.decoding(data.take(1)) as i8
}

impl TableModel {
    /// The fields of the message type that claims `opcode`, if one does.
    pub open spec fn schema_of(self, opcode: i8) -> Option<Seq<FieldDescriptor>> {
        find_schema(self.types, opcode)
    }

    /// Whether a message type of the union claims `opcode`.
    pub open spec fn claims(self, opcode: i8) -> bool {
        self.schema_of(opcode).is_some()
    }

    /// Whether `message` is one that is read back as what it is: a message of a message type
    /// holds no byte string above the size limit, and the catch-all holds an opcode that no
    /// message type claims.
    pub open spec fn reads_back(self, message: MessageModel) -> bool {
        match message {
            MessageModel::Known { opcode, fields } => within_size_limit(fields),
            MessageModel::Unknown { opcode, data } => !self.claims(opcode),
        }
    }

    /// Whether no two message types claim the same opcode, and none the reserved one.
    pub open spec fn well_formed(self) -> bool {
        &&& forall|i: int, j: int|
            0 <= i < j < self.types.len() ==> self.types[i].opcode != self.types[j].opcode
        &&& forall|i: int|
            0 <= i < self.types.len() ==> (#[trigger] self.types[i]).opcode != RESERVED_OPCODE
    }
}

/// The bytes of `message` in the union `table`: the opcode byte, and behind it the bytes of
/// the fields, or, for the catch-all, the bytes it holds, as they are.
pub open spec fn encode_message(table: TableModel, message: MessageModel) -> Result<
    Seq<u8>,
    Error,
> {
    match message {
        MessageModel::Known { opcode, fields } => match table.schema_of(opcode) {
            None => Err(Error::UnknownOpcode(opcode_byte(opcode))),
            Some(schema) => match spec_serialize(schema, fields) {
                Err(e) => Err(e),
                Ok(body) => Ok(IntKind::I8.encoding(opcode as int) + body),
            },
        },
        MessageModel::Unknown { opcode, data } => if table.catch_all {
            Ok(IntKind::I8.encoding(opcode as int) + data)
        } else {
            Err(Error::UnknownOpcode(opcode_byte(opcode)))
        },
    }
}

/// The message of the union `table` that `data` holds.
pub open spec fn decode_message(table: TableModel, data: Seq<u8>) -> Result<MessageModel, Error> {
    if data.len() == 0 {
        Err(Error::EmptyMessage)
    } else {
        match table.schema_of(opcode_of(data)) {
            Some(schema) => match spec_deserialize(schema, data.skip(1)) {
                Err(e) => Err(e),
                Ok((fields, used)) => Ok(MessageModel::Known { opcode: opcode_of(data), fields }),
            },
            None => if table.catch_all {
                Ok(MessageModel::Unknown { opcode: opcode_of(data), data: data.skip(1) })
            } else {
                Err(Error::UnknownOpcode(data[0]))
            },
        }
    }
}

/// A union of message types whose members are fixed when the program is written. The table
/// of the union and the reading of a message as a value of the table are stated here; how a
/// message is held is the implementation's own.
pub trait Codec: Sized {
    /// The table of the union.
    spec fn union() -> TableModel;

    /// The message as a value of the table.
    spec fn model(&self) -> MessageModel;

    /// Every message is a member of its union: it is the catch-all only where the union has
    /// one.
    proof fn lemma_member(&self)
        ensures
            self.model() is Unknown ==> Self::union().catch_all,
    ;

    /// The bytes of the message: its opcode byte, and the bytes of its fields.
    fn encode(&self) -> (r: Result<Vec<u8>, Error>)
        ensures
            is_bytes(r, encode_message(Self::union(), self.model())),
    ;

    /// The message that `data` holds.
    ///
    /// Fails with `EmptyMessage` if there is no opcode byte; with `UnknownOpcode` if no
    /// message type claims the opcode and the union has no catch-all; and as the field codec
    /// engine does if the fields cannot be read.
    fn decode(data: &[u8]) -> (r: Result<Self, Error>)
        ensures
            match decode_message(Self::union(), data@) {
                Ok(message) => r matches Ok(m) && m.model() == message,
                Err(e) => r matches Err(x) && x == e,
            },
    ;
}

/// A message of a union whose table is made when the program runs.
#[derive(Clone, Debug, PartialEq, Eq)]
pub enum AnyMessage {
    /// A message of the type with the given opcode.
    Known { opcode: i8, values: Vec<FieldValue> },
    /// The catch-all: an opcode, and the bytes that followed it, not read.
    Unknown { opcode: i8, data: Vec<u8> },
}

impl View for AnyMessage {
    type V = MessageModel;

    open spec fn view(&self) -> MessageModel {
        match self {
            AnyMessage::Known { opcode, values } => MessageModel::Known {
                opcode: *opcode,
                fields: models(values@),
            },
            AnyMessage::Unknown { opcode, data } => MessageModel::Unknown {
                opcode: *opcode,
                data: data@,
            },
        }
    }
}

/// A union of message types whose table is made when the program runs: message types are
/// registered one by one, each under an opcode that no other has.
#[derive(Debug)]
pub struct OpcodeTable {
    types: Vec<MessageType>,
    catch_all: bool,
}

impl View for OpcodeTable {
    type V = TableModel;

    closed spec fn view(&self) -> TableModel {
        TableModel {
            types: self.types@.map_values(|t: MessageType| t@),
            catch_all: self.catch_all,
        }
    }
}

impl OpcodeTable {
    #[verifier::type_invariant]
    spec fn well_formed(&self) -> bool {
        self@.well_formed()
    }

    /// A union without message types, with or without a catch-all member.
    pub fn new(catch_all: bool) -> (r: OpcodeTable)
        ensures
            r@ == (TableModel { types: Seq::empty(), catch_all }),
    {
        let types: Vec<MessageType> = Vec::new();
        assert(types@.map_values(|t: MessageType| t@) =~= Seq::<MessageTypeModel>::empty());
        OpcodeTable { types, catch_all }
    }

    /// The number of message types of the union. No two of them claim the same opcode, and
    /// none the reserved one.
    pub fn len(&self) -> (r: usize)
        ensures
            r == self@.types.len(),
            self@.well_formed(),
    {
        proof {
            use_type_invariant(self);
        }
        self.types.len()
    }

    /// Adds a message type with the opcode `opcode` and the fields `schema`.
    ///
    /// Fails with `ReservedOpcode` if the opcode is the reserved one, and with
    /// `DuplicateOpcode` if a message type of the union claims it already; the union is
    /// then as it was.
    pub fn register(&mut self, opcode: i8, schema: Vec<FieldDescriptor>) -> (r: Result<(), Error>)
        ensures
            final(self)@.catch_all == old(self)@.catch_all,
            match r {
                Ok(()) => opcode != RESERVED_OPCODE && !old(self)@.claims(opcode)
                    && final(self)@.types == old(self)@.types.push(
                    MessageTypeModel { opcode, schema: schema@ },
                ),
                Err(e) => final(self)@ == old(self)@ && if opcode == RESERVED_OPCODE {
                    e == Error::ReservedOpcode
                } else {
                    old(self)@.claims(opcode) && e == Error::DuplicateOpcode(opcode_byte(opcode))
                },
            },
    {
        if opcode == RESERVED_OPCODE {
            return Err(Error::ReservedOpcode);
        }
        if self.position(opcode).is_some() {
            let mut byte: Vec<u8> = Vec::new();
            IntKind::I8.encode(opcode as i128, &mut byte);
            proof {
                lemma_int_roundtrip(IntKind::I8, opcode as int);
            }
            return Err(Error::DuplicateOpcode(byte[0]));
        }
        let ghost before = self@;
        proof {
            use_type_invariant(&*self);
            lemma_unclaimed(before.types, opcode);
        }
        let mut taken = OpcodeTable::new(self.catch_all);
        std::mem::swap(self, &mut taken);
        let OpcodeTable { types, catch_all } = taken;
        let mut types = types;
        types.push(MessageType { opcode, schema });
        assert(types@.map_values(|t: MessageType| t@) =~= before.types.push(
            MessageTypeModel { opcode, schema: schema@ },
        ));
        *self = OpcodeTable { types, catch_all };
        Ok(())
    }

    /// Whether the union has a catch-all member.
    pub fn has_catch_all(&self) -> (r: bool)
        ensures
            r == self@.catch_all,
    {
        self.catch_all
    }

    /// Where in the table the message type that claims `opcode` stands, if one does.
    fn position(&self, opcode: i8) -> (r: Option<usize>)
        ensures
            match r {
                Some(i) => i < self.types@.len() && self.types@[i as int].opcode == opcode
                    && self@.schema_of(opcode) == Some(self.types@[i as int].schema@),
                None => self@.schema_of(opcode).is_none(),
            },
    {
        let mut i: usize = 0;
        while i < self.types.len()
            invariant
                i <= self.types@.len(),
                find_schema(self@.types.take(i as int), opcode).is_none(),
            decreases self.types@.len() - i,
        {
            if self.types[i].opcode == opcode {
                proof {
                    assert(self@.types.take(i + 1).drop_last() =~= self@.types.take(i as int));
                    lemma_found(self@.types, opcode, i as int);
                }
                return Some(i);
            }
            proof {
                assert(self@.types.take(i + 1).drop_last() =~= self@.types.take(i as int));
            }
            i += 1;
        }
        proof {
            assert(self@.types.take(i as int) =~= self@.types);
        }
        None
    }

    /// The bytes of `message`: its opcode byte, and the bytes of its fields by the table of
    /// its message type, or, for the catch-all, the bytes it holds, as they are.
    ///
    /// Fails with `UnknownOpcode` if no message type claims the opcode of a known message, or
    /// if the message is the catch-all and the union has none; and as the field codec engine
    /// does if the fields have no encoding.
    pub fn encode(&self, message: &AnyMessage) -> (r: Result<Vec<u8>, Error>)
        ensures
            is_bytes(r, encode_message(self@, message@)),
    {
        let mut bytes: Vec<u8> = Vec::new();
        match message {
            AnyMessage::Known { opcode, values } => {
                IntKind::I8.encode(*opcode as i128, &mut bytes);
                proof {
                    lemma_int_roundtrip(IntKind::I8, *opcode as int);
                }
                match self.position(*opcode) {
                    None => Err(Error::UnknownOpcode(bytes[0])),
                    Some(i) => {
                        match serialize(self.types[i].schema.as_slice(), values.as_slice()) {
                            Err(e) => Err(e),
                            Ok(body) => {
                                append(&mut bytes, body.as_slice());
                                Ok(bytes)
                            },
                        }
                    },
                }
            },
            AnyMessage::Unknown { opcode, data } => {
                IntKind::I8.encode(*opcode as i128, &mut bytes);
                proof {
                    lemma_int_roundtrip(IntKind::I8, *opcode as int);
                }
                if self.catch_all {
                    append(&mut bytes, data.as_slice());
                    Ok(bytes)
                } else {
                    Err(Error::UnknownOpcode(bytes[0]))
                }
            },
        }
    }

    /// The message that `data` holds.
    ///
    /// Fails with `EmptyMessage` if there is no opcode byte; with `UnknownOpcode` if no
    /// message type claims the opcode and the union has no catch-all; and as the field codec
    /// engine does if the fields cannot be read.
    pub fn decode(&self, data: &[u8]) -> (r: Result<AnyMessage, Error>)
        ensures
            match decode_message(self@, data@) {
                Ok(message) => r matches Ok(m) && m@ == message,
                Err(e) => r matches Err(x) && x == e,
            },
    {
        if data.len() == 0 {
            return Err(Error::EmptyMessage);
        }
        let opcode: i8 = IntKind::I8.decode(data, 0) as i8;
        let body: &[u8] = slice_subrange(data, 1, data.len());
        proof {
            assert(data@.subrange(0, 1) =~= data@.take(1));
            assert(data@.subrange(1, data@.len() as int) =~= data@.skip(1));
        }
        match self.position(opcode) {
            Some(i) => match deserialize(self.types[i].schema.as_slice(), body) {
                Err(e) => Err(e),
                Ok((values, _)) => Ok(AnyMessage::Known { opcode, values }),
            },
            None => if self.catch_all {
                Ok(AnyMessage::Unknown { opcode, data: slice_to_vec(body) })
            } else {
                Err(Error::UnknownOpcode(data[0]))
            },
        }
    }
}

/// The message type at `i` is the one that is found for its opcode, when none before it
/// claims that opcode.
pub proof fn lemma_found(types: Seq<MessageTypeModel>, opcode: i8, i: int)
    requires
        0 <= i < types.len(),
        types[i].opcode == opcode,
        find_schema(types.take(i), opcode).is_none(),
    ensures
        find_schema(types, opcode) == Some(types[i].schema),
    decreases types.len(),
{
    if i + 1 == types.len() {
        assert(types.drop_last() =~= types.take(i));
    } else {
        assert(types.drop_last().take(i) =~= types.take(i));
        lemma_found(types.drop_last(), opcode, i);
    }
}

/// An opcode for which nothing is found is the opcode of no message type.
pub proof fn lemma_unclaimed(types: Seq<MessageTypeModel>, opcode: i8)
    requires
        find_schema(types, opcode).is_none(),
    ensures
        forall|i: int| 0 <= i < types.len() ==> (#[trigger] types[i]).opcode != opcode,
    decreases types.len(),
{
    if types.len() > 0 {
        lemma_unclaimed(types.drop_last(), opcode);
        assert forall|i: int| 0 <= i < types.len() implies (#[trigger] types[i]).opcode
            != opcode by {
            if i < types.len() - 1 {
                assert(types.drop_last()[i] == types[i]);
            }
        }
    }
}

/// A message type that is added to a union takes nothing from the others: what was found for
/// an opcode before is found for it afterwards.
pub proof fn lemma_claim_stands(types: Seq<MessageTypeModel>, added: MessageTypeModel, opcode: i8)
    requires
        find_schema(types, opcode).is_some(),
    ensures
        find_schema(types.push(added), opcode) == find_schema(types, opcode),
{
    assert(types.push(added).drop_last() =~= types);
}

/// Round trip: the message that was written is the message that is read, for every message
/// type of the union and for the catch-all.
///
/// Left out are the messages that cannot be read back as what they are: one with a byte
/// string longer than the size limit, and a catch-all message that holds an opcode which a
/// message type of the union claims.
pub proof fn lemma_codec_roundtrip(table: TableModel, message: MessageModel)
    requires
        encode_message(table, message).is_ok(),
        table.reads_back(message),
    ensures
        decode_message(table, encode_message(table, message)->Ok_0) == Ok::<MessageModel, Error>(
            message,
        ),
{
    let bytes = encode_message(table, message)->Ok_0;
    match message {
        MessageModel::Known { opcode, fields } => {
            let schema = table.schema_of(opcode)->Some_0;
            let body = spec_serialize(schema, fields)->Ok_0;
            lemma_int_roundtrip(IntKind::I8, opcode as int);
            assert(bytes.take(1) =~= IntKind::I8.encoding(opcode as int));
            assert(bytes.skip(1) =~= body);
            lemma_roundtrip(schema, fields, Seq::empty());
            assert(body + Seq::<u8>::empty() =~= body);
        },
        MessageModel::Unknown { opcode, data } => {
            lemma_int_roundtrip(IntKind::I8, opcode as int);
            assert(bytes.take(1) =~= IntKind::I8.encoding(opcode as int));
            assert(bytes.skip(1) =~= data);
        },
    }
}

/// With a catch-all, every opcode byte is read: no message is refused for its opcode. What
/// is read as the catch-all holds an opcode that no message type claims, and the bytes behind
/// the opcode byte as they were.
pub proof fn lemma_catch_all(table: TableModel, data: Seq<u8>)
    requires
        data.len() > 0,
    ensures
        table.catch_all ==> !(decode_message(table, data) matches Err(Error::UnknownOpcode(_))),
        decode_message(table, data) matches Ok(MessageModel::Unknown { opcode, data: body })
            ==> table.catch_all && !table.claims(opcode) && opcode == opcode_of(data) && body
            == data.skip(1),
        !table.catch_all && !table.claims(opcode_of(data)) ==> decode_message(table, data)
            == Err::<MessageModel, Error>(Error::UnknownOpcode(data[0])),
{
    let schema = table.schema_of(opcode_of(data));
    if schema.is_some() {
        lemma_decode_failures(schema->Some_0, data.skip(1));
    }
}

} // verus!
