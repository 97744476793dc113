//! The field codec engine: a message type is a table of field descriptors, a message is the
//! sequence of its field values, and the bytes of a message are the bytes of its fields, one
//! after the other in the order of the table.

use crate::error::Error;
use crate::wire::{lemma_int_decoding_holds, lemma_int_roundtrip, IntKind};
use vstd::prelude::*;

verus! {

/// The greatest length that a variable-length field may declare: 10 MiB. It bounds what a
/// corrupted or hostile length prefix can make the reader allocate.
pub const MAX_PREFIXED_SIZE: usize = 10_485_760;

/// How a field stands on the wire.
#[derive(Clone, Copy, Debug, PartialEq, Eq, Structural)]
pub enum WireKind {
    /// A fixed-width integer, little-endian, two's complement where signed.
    Int(IntKind),
    /// A byte string behind a length prefix of the given integer type.
    Bytes(IntKind),
}

/// One field of a message type: its name and how it stands on the wire.
#[derive(Clone, Copy, Debug, PartialEq, Eq)]
pub struct FieldDescriptor {
    /// The name of the field, by which failures tell it.
    pub name: &'static str,
    /// How the field stands on the wire.
    pub kind: WireKind,
}

/// The value of one field: an integer of one of the eight types, or a byte string.
#[derive(Clone, Debug, PartialEq, Eq)]
pub enum FieldValue {
    I8(i8),
    I16(i16),
    I32(i32),
    I64(i64),
    U8(u8),
    U16(u16),
    U32(u32),
    U64(u64),
    Bytes(Vec<u8>),
}

/// What a field value is, mathematically: an integer of some type, or a byte string.
pub enum FieldModel {
    Int { kind: IntKind, value: int },
    Bytes { data: Seq<u8> },
}

impl FieldModel {
    /// Whether the value is one that the reader accepts: a byte string is not longer than
    /// `MAX_PREFIXED_SIZE`.
    pub open spec fn within_limit(self) -> bool {
        match self {
            FieldModel::Bytes { data } => data.len() <= MAX_PREFIXED_SIZE,
            FieldModel::Int { kind, value } => true,
        }
    }

    /// Whether the value can stand in a field of wire kind `kind`.
    pub open spec fn conforms(self, kind: WireKind) -> bool {
        match (kind, self) {
            (WireKind::Int(k), FieldModel::Int { kind, value }) => k == kind && kind.holds(value),
            (WireKind::Bytes(_), FieldModel::Bytes { data }) => true,
            _ => false,
        }
    }
}

impl View for FieldValue {
    type V = FieldModel;

    open spec fn view(&self) -> FieldModel {
        match self {
            FieldValue::I8(v) => FieldModel::Int { kind: IntKind::I8, value: *v as int },
            FieldValue::I16(v) => FieldModel::Int { kind: IntKind::I16, value: *v as int },
            FieldValue::I32(v) => FieldModel::Int { kind: IntKind::I32, value: *v as int },
            FieldValue::I64(v) => FieldModel::Int { kind: IntKind::I64, value: *v as int },
            FieldValue::U8(v) => FieldModel::Int { kind: IntKind::U8, value: *v as int },
            FieldValue::U16(v) => FieldModel::Int { kind: IntKind::U16, value: *v as int },
            FieldValue::U32(v) => FieldModel::Int { kind: IntKind::U32, value: *v as int },
            FieldValue::U64(v) => FieldModel::Int { kind: IntKind::U64, value: *v as int },
            FieldValue::Bytes(data) => FieldModel::Bytes { data: data@ },
        }
    }
}

impl FieldValue {
    /// The integer value of `value` as a field value of type `kind`.
    pub(crate) fn from_int(kind: IntKind, value: i128) -> (r: FieldValue)
        requires
            kind.holds(value as int),
        ensures
            r@ == (FieldModel::Int { kind, value: value as int }),
    {
        match kind {
            IntKind::I8 => FieldValue::I8(value as i8),
            IntKind::I16 => FieldValue::I16(value as i16),
            IntKind::I32 => FieldValue::I32(value as i32),
            IntKind::I64 => FieldValue::I64(value as i64),
            IntKind::U8 => FieldValue::U8(value as u8),
            IntKind::U16 => FieldValue::U16(value as u16),
            IntKind::U32 => FieldValue::U32(value as u32),
            IntKind::U64 => FieldValue::U64(value as u64),
        }
    }

    /// The type and the value of an integer field value; `None` for a byte string.
    pub fn as_int(&self) -> (r: Option<(IntKind, i128)>)
        ensures
            match self@ {
                FieldModel::Int { kind, value } => r == Some((kind, value as i128)) && kind.holds(
                    value,
                ),
                FieldModel::Bytes { data } => r.is_none(),
            },
    {
        match self {
            FieldValue::I8(v) => Some((IntKind::I8, *v as i128)),
            FieldValue::I16(v) => Some((IntKind::I16, *v as i128)),
            FieldValue::I32(v) => Some((IntKind::I32, *v as i128)),
            FieldValue::I64(v) => Some((IntKind::I64, *v as i128)),
            FieldValue::U8(v) => Some((IntKind::U8, *v as i128)),
            FieldValue::U16(v) => Some((IntKind::U16, *v as i128)),
            FieldValue::U32(v) => Some((IntKind::U32, *v as i128)),
            FieldValue::U64(v) => Some((IntKind::U64, *v as i128)),
            FieldValue::Bytes(_) => None,
        }
    }
}

/// The mathematical values of a sequence of field values.
pub open spec fn models(values: Seq<FieldValue>) -> Seq<FieldModel> {
    values.map_values(|v: FieldValue| v@)
}

/// The bytes of one field, or why it has none.
pub open spec fn encode_field(desc: FieldDescriptor, value: FieldModel) -> Result<Seq<u8>, Error> {
    match (desc.kind, value) {
        (WireKind::Int(k), FieldModel::Int { kind, value }) => if k == kind && kind.holds(value) {
            Ok(kind.encoding(value))
        } else {
            Err(Error::FieldMismatch { field: desc.name })
        },
        (WireKind::Bytes(prefix), FieldModel::Bytes { data }) => if data.len()
            <= prefix.max_value() {
            Ok(prefix.encoding(data.len() as int) + data)
        } else {
            Err(Error::LengthOverflow { field: desc.name })
        },
        _ => Err(Error::FieldMismatch { field: desc.name }),
    }
}

/// The value of the field that stands at the start of `data` and the number of bytes it takes,
/// or why there is none.
pub open spec fn decode_field(desc: FieldDescriptor, data: Seq<u8>) -> Result<
    (FieldModel, nat),
    Error,
> {
    match desc.kind {
        WireKind::Int(kind) => if data.len() < kind.spec_width() {
            Err(Error::Truncated { field: desc.name })
        } else {
            Ok(
                (
                    FieldModel::Int {
                        kind,
                        value: kind.decoding(data.take(kind.spec_width() as int)),
                    },
                    kind.spec_width(),
                ),
            )
        },
        WireKind::Bytes(prefix) => {
            let declared = prefix.decoding(data.take(prefix.spec_width() as int));
            if data.len() < prefix.spec_width() {
                Err(Error::Truncated { field: desc.name })
            } else if declared < 0 {
                Err(Error::InvalidLength { field: desc.name })
            } else if declared > MAX_PREFIXED_SIZE {
                Err(Error::SizeLimitExceeded { field: desc.name })
            } else if data.len() - prefix.spec_width() < declared {
                Err(Error::Truncated { field: desc.name })
            } else {
                Ok(
                    (
                        FieldModel::Bytes {
                            data: data.subrange(
                                prefix.spec_width() as int,
                                prefix.spec_width() + declared,
                            ),
                        },
                        (prefix.spec_width() + declared) as nat,
                    ),
                )
            }
        },
    }
}

/// The bytes of the fields of `schema` with the values `values`, which are as many: the
/// bytes of each field in the order of the table, or the failure of the first field that has
/// none.
pub open spec fn encode_fields(schema: Seq<FieldDescriptor>, values: Seq<FieldModel>) -> Result<
    Seq<u8>,
    Error,
>
    decreases schema.len(),
{
    if schema.len() == 0 {
        Ok(Seq::empty())
    } else {
        match encode_fields(schema.drop_last(), values.drop_last()) {
            Err(e) => Err(e),
            Ok(bytes) => match encode_field(schema.last(), values.last()) {
                Err(e) => Err(e),
                Ok(field) => Ok(bytes + field),
            },
        }
    }
}

/// The values of the fields of `schema` as they stand at the start of `data`, one after the
/// other, and the number of bytes they take; or the failure of the first field that cannot be
/// read.
pub open spec fn decode_fields(schema: Seq<FieldDescriptor>, data: Seq<u8>) -> Result<
    (Seq<FieldModel>, nat),
    Error,
>
    decreases schema.len(),
{
    if schema.len() == 0 {
        Ok((Seq::empty(), 0))
    } else {
        match decode_fields(schema.drop_last(), data) {
            Err(e) => Err(e),
            Ok((values, used)) => match decode_field(schema.last(), data.skip(used as int)) {
                Err(e) => Err(e),
                Ok((value, n)) => Ok((values.push(value), used + n)),
            },
        }
    }
}

/// What `serialize` returns.
pub open spec fn spec_serialize(schema: Seq<FieldDescriptor>, values: Seq<FieldModel>) -> Result<
    Seq<u8>,
    Error,
> {
    if schema.len() != values.len() {
        Err(Error::FieldCount)
    } else {
        encode_fields(schema, values)
    }
}

/// What `deserialize` returns.
pub open spec fn spec_deserialize(schema: Seq<FieldDescriptor>, data: Seq<u8>) -> Result<
    (Seq<FieldModel>, nat),
    Error,
> {
    decode_fields(schema, data)
}

/// Whether the outcome `r` of serializing is the outcome `expected`.
pub open spec fn is_bytes(r: Result<Vec<u8>, Error>, expected: Result<Seq<u8>, Error>) -> bool {
    match expected {
        Ok(bytes) => r matches Ok(v) && v@ == bytes,
        Err(e) => r matches Err(x) && x == e,
    }
}

/// Whether the outcome `r` of deserializing is the outcome `expected`.
pub open spec fn is_values(
    r: Result<(Vec<FieldValue>, usize), Error>,
    expected: Result<(Seq<FieldModel>, nat), Error>,
) -> bool {
    match expected {
        Ok((values, used)) => r matches Ok((v, n)) && models(v@) == values && n == used,
        Err(e) => r matches Err(x) && x == e,
    }
}

/// Appends the bytes of `data` to `buf`.
pub(crate) fn append(buf: &mut Vec<u8>, data: &[u8])
    ensures
        final(buf)@ == old(buf)@ + data@,
{
    let ghost start = buf@;
    let mut i: usize = 0;
    while i < data.len()
        invariant
            i <= data@.len(),
            buf@ == start + data@.take(i as int),
        decreases data@.len() - i,
    {
        buf.push(data[i]);
        assert(data@.take(i + 1) =~= data@.take(i as int).push(data@[i as int]));
        i += 1;
    }
    assert(data@.take(data@.len() as int) =~= data@);
}

/// The bytes of `data` from `from` up to `to`, in a vector of their own.
pub(crate) fn copy_range(data: &[u8], from: usize, to: usize) -> (r: Vec<u8>)
    requires
        from <= to <= data@.len(),
    ensures
        r@ == data@.subrange(from as int, to as int),
{
    let mut r: Vec<u8> = Vec::new();
    let mut i: usize = from;
    while i < to
        invariant
            from <= i <= to <= data@.len(),
            r@ == data@.subrange(from as int, i as int),
        decreases to - i,
    {
        r.push(data[i]);
        assert(data@.subrange(from as int, i + 1) =~= data@.subrange(from as int, i as int).push(
            data@[i as int],
        ));
        i += 1;
    }
    r
}

/// Appends the bytes of one field to `buf`; on failure `buf` is as it was.
pub(crate) fn put_field(desc: &FieldDescriptor, value: &FieldValue, buf: &mut Vec<u8>) -> (r: Result<
    (),
    Error,
>)
    ensures
        match encode_field(*desc, value@) {
            Ok(bytes) => r.is_ok() && final(buf)@ == old(buf)@ + bytes,
            Err(e) => r == Err::<(), Error>(e) && final(buf)@ == old(buf)@,
        },
{
    match desc.kind {
        WireKind::Int(k) => match value.as_int() {
            Some((kind, v)) => {
                if k == kind {
                    kind.encode(v, buf);
                    Ok(())
                } else {
                    Err(Error::FieldMismatch { field: desc.name })
                }
            },
            None => Err(Error::FieldMismatch { field: desc.name }),
        },
        WireKind::Bytes(prefix) => match value {
            FieldValue::Bytes(data) => {
                if data.len() as u64 > prefix.max() {
                    Err(Error::LengthOverflow { field: desc.name })
                } else {
                    let ghost start = buf@;
                    prefix.encode(data.len() as i128, buf);
                    append(buf, data.as_slice());
                    assert(buf@ =~= start + (prefix.encoding(data@.len() as int) + data@));
                    Ok(())
                }
            },
            _ => Err(Error::FieldMismatch { field: desc.name }),
        },
    }
}

/// Reads the field that stands at `pos` in `data`: its value and the number of bytes it
/// takes.
pub(crate) fn get_field(desc: &FieldDescriptor, data: &[u8], pos: usize) -> (r: Result<
    (FieldValue, usize),
    Error,
>)
    requires
        pos <= data@.len(),
    ensures
        match decode_field(*desc, data@.skip(pos as int)) {
            Ok((value, used)) => r matches Ok((v, n)) && v@ == value && n == used && pos + n
                <= data@.len(),
            Err(e) => r matches Err(x) && x == e,
        },
{
    let rest: usize = data.len() - pos;
    match desc.kind {
        WireKind::Int(kind) => {
            let width: usize = kind.width();
            if rest < width {
                Err(Error::Truncated { field: desc.name })
            } else {
                assert(data@.skip(pos as int).take(width as int) =~= data@.subrange(
                    pos as int,
                    pos + width,
                ));
                let value: i128 = kind.decode(data, pos);
                Ok((FieldValue::from_int(kind, value), width))
            }
        },
        WireKind::Bytes(prefix) => {
            let width: usize = prefix.width();
            if rest < width {
                return Err(Error::Truncated { field: desc.name });
            }
            assert(data@.skip(pos as int).take(width as int) =~= data@.subrange(
                pos as int,
                pos + width,
            ));
            let declared: i128 = prefix.decode(data, pos);
            if declared < 0 {
                Err(Error::InvalidLength { field: desc.name })
            } else if declared > MAX_PREFIXED_SIZE as i128 {
                Err(Error::SizeLimitExceeded { field: desc.name })
            } else if ((rest - width) as i128) < declared {
                Err(Error::Truncated { field: desc.name })
            } else {
                let len: usize = declared as usize;
                let start: usize = pos + width;
                let blob: Vec<u8> = copy_range(data, start, start + len);
                assert(data@.skip(pos as int).subrange(width as int, width + len)
                    =~= data@.subrange(start as int, start + len));
                Ok((FieldValue::Bytes(blob), width + len))
            }
        },
    }
}

/// The bytes of a message of type `schema` with the field values `values`.
///
/// Fails with `FieldCount` if there are not as many values as fields; otherwise with the
/// failure of the first field that has no encoding: `FieldMismatch` if its value is not of its
/// wire kind, `LengthOverflow` if its byte string is longer than its prefix type can say.
pub fn serialize(schema: &[FieldDescriptor], values: &[FieldValue]) -> (r: Result<Vec<u8>, Error>)
    ensures
        is_bytes(r, spec_serialize(schema@, models(values@))),
{
    if schema.len() != values.len() {
        return Err(Error::FieldCount);
    }
    let mut buf: Vec<u8> = Vec::new();
    let mut i: usize = 0;
    while i < schema.len()
        invariant
            i <= schema@.len() == values@.len(),
            encode_fields(schema@.take(i as int), models(values@).take(i as int)) == Ok::<
                Seq<u8>,
                Error,
            >(buf@),
        decreases schema@.len() - i,
    {
        proof {
            assert(schema@.take(i + 1).drop_last() =~= schema@.take(i as int));
            assert(models(values@).take(i + 1).drop_last() =~= models(values@).take(i as int));
        }
        match put_field(&schema[i], &values[i], &mut buf) {
            Ok(()) => {},
            Err(e) => {
                proof {
                    lemma_encode_fields_fails_at(schema@, models(values@), i as int);
                }
                return Err(e);
            },
        }
        i += 1;
    }
    proof {
        assert(schema@.take(i as int) =~= schema@);
        assert(models(values@).take(i as int) =~= models(values@));
    }
    Ok(buf)
}

/// The field values of the message of type `schema` that stands at the start of `data`, and
/// the number of bytes it takes. Bytes behind the message are not looked at.
///
/// Fails with the failure of the first field that cannot be read: `Truncated` if `data` ends
/// before the field does, `InvalidLength` if its declared length is negative,
/// `SizeLimitExceeded` if its declared length is above `MAX_PREFIXED_SIZE`. No value is
/// returned unless every field was read.
pub fn deserialize(schema: &[FieldDescriptor], data: &[u8]) -> (r: Result<
    (Vec<FieldValue>, usize),
    Error,
>)
    ensures
        is_values(r, spec_deserialize(schema@, data@)),
{
    let len: usize = data.len();
    let mut values: Vec<FieldValue> = Vec::new();
    let mut pos: usize = 0;
    let mut i: usize = 0;
    assert(models(values@) =~= Seq::<FieldModel>::empty());
    while i < schema.len()
        invariant
            i <= schema@.len(),
            pos <= data@.len() == len,
            decode_fields(schema@.take(i as int), data@) == Ok::<(Seq<FieldModel>, nat), Error>(
                (models(values@), pos as nat),
            ),
        decreases schema@.len() - i,
    {
        proof {
            assert(schema@.take(i + 1).drop_last() =~= schema@.take(i as int));
        }
        match get_field(&schema[i], data, pos) {
            Ok((value, used)) => {
                let ghost before = values@;
                values.push(value);
                assert(models(values@) =~= models(before).push(value@));
                pos = pos + used;
            },
            Err(e) => {
                proof {
                    lemma_decode_fields_fails_at(schema@, data@, i as int);
                }
                return Err(e);
            },
        }
        i += 1;
    }
    proof {
        assert(schema@.take(i as int) =~= schema@);
    }
    Ok((values, pos))
}

/// A failure among the first fields is the failure of the whole: once the fields before `i`
/// have their bytes and field `i` has none, the message has none, for the same reason.
pub proof fn lemma_encode_fields_fails_at(
    schema: Seq<FieldDescriptor>,
    values: Seq<FieldModel>,
    i: int,
)
    requires
        0 <= i < schema.len() == values.len(),
        encode_fields(schema.take(i), values.take(i)).is_ok(),
        encode_field(schema[i], values[i]).is_err(),
    ensures
        encode_fields(schema, values) == Err::<Seq<u8>, Error>(
            encode_field(schema[i], values[i])->Err_0,
        ),
    decreases schema.len(),
{
    if i + 1 == schema.len() {
        assert(schema.take(i) =~= schema.drop_last());
        assert(values.take(i) =~= values.drop_last());
    } else {
        assert(schema.drop_last().take(i) =~= schema.take(i));
        assert(values.drop_last().take(i) =~= values.take(i));
        lemma_encode_fields_fails_at(schema.drop_last(), values.drop_last(), i);
    }
}

/// A failure among the first fields is the failure of the whole: once the fields before `i`
/// were read and field `i` cannot be, the message cannot be read, for the same reason.
pub proof fn lemma_decode_fields_fails_at(schema: Seq<FieldDescriptor>, data: Seq<u8>, i: int)
    requires
        0 <= i < schema.len(),
        decode_fields(schema.take(i), data).is_ok(),
        decode_field(
            schema[i],
            data.skip(decode_fields(schema.take(i), data)->Ok_0.1 as int),
        ).is_err(),
    ensures
        decode_fields(schema, data) == Err::<(Seq<FieldModel>, nat), Error>(
            decode_field(
                schema[i],
                data.skip(decode_fields(schema.take(i), data)->Ok_0.1 as int),
            )->Err_0,
        ),
    decreases schema.len(),
{
    if i + 1 == schema.len() {
        assert(schema.take(i) =~= schema.drop_last());
    } else {
        assert(schema.drop_last().take(i) =~= schema.take(i));
        lemma_decode_fields_fails_at(schema.drop_last(), data, i);
    }
}

/// Whether no byte string among `values` is longer than `MAX_PREFIXED_SIZE`.
pub open spec fn within_size_limit(values: Seq<FieldModel>) -> bool {
    forall|i: int| 0 <= i < values.len() ==> (#[trigger] values[i]).within_limit()
}

/// The number of bytes that a field with this value takes: the width of an integer, or the
/// width of the prefix and the length of the byte string.
pub open spec fn field_size(desc: FieldDescriptor, value: FieldModel) -> nat {
    match (desc.kind, value) {
        (WireKind::Bytes(prefix), FieldModel::Bytes { data }) => prefix.spec_width() + data.len(),
        (WireKind::Bytes(prefix), _) => prefix.spec_width(),
        (WireKind::Int(kind), _) => kind.spec_width(),
    }
}

/// The sum of the sizes of the fields.
pub open spec fn wire_size(schema: Seq<FieldDescriptor>, values: Seq<FieldModel>) -> nat
    decreases schema.len(),
{
    if schema.len() == 0 {
        0
    } else {
        wire_size(schema.drop_last(), values.drop_last()) + field_size(
            schema.last(),
            values.last(),
        )
    }
}

/// A field that was written is read back, whatever follows it: the same value, and as many
/// bytes taken as were written. A byte string above the size limit is written but not read,
/// so it is left out.
pub proof fn lemma_field_roundtrip(desc: FieldDescriptor, value: FieldModel, rest: Seq<u8>)
    requires
        encode_field(desc, value).is_ok(),
        value.within_limit(),
    ensures
        encode_field(desc, value)->Ok_0.len() == field_size(desc, value),
        decode_field(desc, encode_field(desc, value)->Ok_0 + rest) == Ok::<
            (FieldModel, nat),
            Error,
        >((value, field_size(desc, value))),
{
    let bytes = encode_field(desc, value)->Ok_0;
    match (desc.kind, value) {
        (WireKind::Int(k), FieldModel::Int { kind, value }) => {
            lemma_int_roundtrip(kind, value);
            assert((bytes + rest).take(kind.spec_width() as int) =~= bytes);
        },
        (WireKind::Bytes(prefix), FieldModel::Bytes { data }) => {
            let head = prefix.encoding(data.len() as int);
            lemma_int_roundtrip(prefix, data.len() as int);
            assert((bytes + rest).take(prefix.spec_width() as int) =~= head);
            assert((bytes + rest).subrange(
                prefix.spec_width() as int,
                (prefix.spec_width() + data.len()) as int,
            ) =~= data);
        },
        _ => {},
    }
}

/// A field of which a byte is missing is not read: the reader reports it as truncated.
pub proof fn lemma_field_truncated(desc: FieldDescriptor, value: FieldModel, n: int)
    requires
        encode_field(desc, value).is_ok(),
        value.within_limit(),
        0 <= n < encode_field(desc, value)->Ok_0.len(),
    ensures
        decode_field(desc, encode_field(desc, value)->Ok_0.take(n)) == Err::<
            (FieldModel, nat),
            Error,
        >(Error::Truncated { field: desc.name }),
{
    let bytes = encode_field(desc, value)->Ok_0;
    match (desc.kind, value) {
        (WireKind::Int(k), FieldModel::Int { kind, value }) => {
            lemma_int_roundtrip(kind, value);
        },
        (WireKind::Bytes(prefix), FieldModel::Bytes { data }) => {
            let head = prefix.encoding(data.len() as int);
            lemma_int_roundtrip(prefix, data.len() as int);
            if n >= prefix.spec_width() {
                assert(bytes.take(n).take(prefix.spec_width() as int) =~= head);
            }
        },
        _ => {},
    }
}

/// The bytes of a message are as many as the sizes of its fields add up to.
pub proof fn lemma_serialized_size(schema: Seq<FieldDescriptor>, values: Seq<FieldModel>)
    requires
        spec_serialize(schema, values).is_ok(),
    ensures
        spec_serialize(schema, values)->Ok_0.len() == wire_size(schema, values),
    decreases schema.len(),
{
    if schema.len() > 0 {
        lemma_serialized_size(schema.drop_last(), values.drop_last());
        match (schema.last().kind, values.last()) {
            (WireKind::Int(k), FieldModel::Int { kind, value }) => {
                lemma_int_roundtrip(kind, value);
            },
            (WireKind::Bytes(prefix), FieldModel::Bytes { data }) => {
                lemma_int_roundtrip(prefix, data.len() as int);
            },
            _ => {},
        }
    }
}

/// Round trip: what `serialize` wrote, `deserialize` reads back, whatever follows it. It
/// returns the same values and the number of bytes that were written.
///
/// A byte string longer than `MAX_PREFIXED_SIZE` is written where its prefix type can say its
/// length, but is refused by the reader; such messages are left out.
pub proof fn lemma_roundtrip(schema: Seq<FieldDescriptor>, values: Seq<FieldModel>, rest: Seq<u8>)
    requires
        spec_serialize(schema, values).is_ok(),
        within_size_limit(values),
    ensures
        spec_deserialize(schema, spec_serialize(schema, values)->Ok_0 + rest) == Ok::<
            (Seq<FieldModel>, nat),
            Error,
        >((values, spec_serialize(schema, values)->Ok_0.len())),
    decreases schema.len(),
{
    let bytes = spec_serialize(schema, values)->Ok_0;
    if schema.len() == 0 {
        assert(values =~= Seq::<FieldModel>::empty());
    } else {
        let front = encode_fields(schema.drop_last(), values.drop_last())->Ok_0;
        let last = encode_field(schema.last(), values.last())->Ok_0;
        assert(within_size_limit(values.drop_last())) by {
            assert forall|i: int| 0 <= i < values.drop_last().len() implies (
            #[trigger] values.drop_last()[i]).within_limit() by {
                assert(values.drop_last()[i] == values[i]);
            }
        }
        lemma_roundtrip(schema.drop_last(), values.drop_last(), last + rest);
        assert(front + (last + rest) =~= bytes + rest);
        assert((bytes + rest).skip(front.len() as int) =~= last + rest);
        lemma_field_roundtrip(schema.last(), values.last(), rest);
        assert(values.drop_last().push(values.last()) =~= values);
    }
}

/// Truncation: a message of which a byte is missing is not read. Whatever proper prefix of
/// the written bytes the reader is given, it fails with `Truncated`, and returns no value.
pub proof fn lemma_truncated(schema: Seq<FieldDescriptor>, values: Seq<FieldModel>, n: int)
    requires
        spec_serialize(schema, values).is_ok(),
        within_size_limit(values),
        0 <= n < spec_serialize(schema, values)->Ok_0.len(),
    ensures
        spec_deserialize(schema, spec_serialize(schema, values)->Ok_0.take(n)) matches Err(e)
            && e is Truncated,
    decreases schema.len(),
{
    let bytes = spec_serialize(schema, values)->Ok_0;
    if schema.len() > 0 {
        let front = encode_fields(schema.drop_last(), values.drop_last())->Ok_0;
        let last = encode_field(schema.last(), values.last())->Ok_0;
        assert(within_size_limit(values.drop_last())) by {
            assert forall|i: int| 0 <= i < values.drop_last().len() implies (
            #[trigger] values.drop_last()[i]).within_limit() by {
                assert(values.drop_last()[i] == values[i]);
            }
        }
        if n < front.len() {
            assert(bytes.take(n) =~= front.take(n));
            lemma_truncated(schema.drop_last(), values.drop_last(), n);
        } else {
            let m = n - front.len();
            assert(bytes.take(n) =~= front + last.take(m));
            lemma_roundtrip(schema.drop_last(), values.drop_last(), last.take(m));
            assert(bytes.take(n).skip(front.len() as int) =~= last.take(m));
            lemma_field_truncated(schema.last(), values.last(), m);
        }
    }
}

/// The wire format is canonical: the bytes that a message was read from are the bytes that
/// `serialize` writes for it.
pub proof fn lemma_reserialize(schema: Seq<FieldDescriptor>, data: Seq<u8>)
    requires
        spec_deserialize(schema, data).is_ok(),
    ensures
        spec_deserialize(schema, data)->Ok_0.1 <= data.len(),
        spec_serialize(schema, spec_deserialize(schema, data)->Ok_0.0) == Ok::<Seq<u8>, Error>(
            data.take(spec_deserialize(schema, data)->Ok_0.1 as int),
        ),
    decreases schema.len(),
{
    let (values, used) = spec_deserialize(schema, data)->Ok_0;
    lemma_decode_fields_len(schema, data);
    if schema.len() == 0 {
        assert(data.take(0) =~= Seq::<u8>::empty());
    } else {
        let (front, mid) = decode_fields(schema.drop_last(), data)->Ok_0;
        lemma_reserialize(schema.drop_last(), data);
        lemma_decode_fields_len(schema.drop_last(), data);
        let tail = data.skip(mid as int);
        let (value, n) = decode_field(schema.last(), tail)->Ok_0;
        assert(values.drop_last() =~= front);
        match schema.last().kind {
            WireKind::Int(kind) => {
                let head = tail.take(kind.spec_width() as int);
                lemma_int_decoding_holds(kind, head);
                assert(data.take(mid as int) + head =~= data.take(used as int));
            },
            WireKind::Bytes(prefix) => {
                let head = tail.take(prefix.spec_width() as int);
                lemma_int_decoding_holds(prefix, head);
                let blob = tail.subrange(prefix.spec_width() as int, n as int);
                assert(data.take(mid as int) + (head + blob) =~= data.take(used as int));
            },
        }
    }
}

/// What was read has as many values as the message type has fields, each of its field's wire
/// kind, and no byte string among them is above the size limit.
pub proof fn lemma_decode_fields_len(schema: Seq<FieldDescriptor>, data: Seq<u8>)
    requires
        decode_fields(schema, data).is_ok(),
    ensures
        decode_fields(schema, data)->Ok_0.0.len() == schema.len(),
        decode_fields(schema, data)->Ok_0.1 <= data.len(),
        within_size_limit(decode_fields(schema, data)->Ok_0.0),
        forall|i: int|
            0 <= i < schema.len() ==> (#[trigger] decode_fields(schema, data)->Ok_0.0[i]).conforms(
                schema[i].kind,
            ),
    decreases schema.len(),
{
    if schema.len() > 0 {
        lemma_decode_fields_len(schema.drop_last(), data);
        let (front, mid) = decode_fields(schema.drop_last(), data)->Ok_0;
        let tail = data.skip(mid as int);
        match schema.last().kind {
            WireKind::Int(kind) => {
                lemma_int_decoding_holds(kind, tail.take(kind.spec_width() as int));
            },
            WireKind::Bytes(prefix) => {},
        }
    }
}

/// The size limit is sharp: a byte string whose declared length is exactly
/// `MAX_PREFIXED_SIZE` is read where its bytes are there, and one whose declared length is
/// one more is refused, whether its bytes are there or not.
pub proof fn lemma_size_limit(desc: FieldDescriptor, data: Seq<u8>)
    requires
        desc.kind is Bytes,
        data.len() >= desc.kind->Bytes_0.spec_width(),
    ensures
        ({
            let width = desc.kind->Bytes_0.spec_width();
            let declared = desc.kind->Bytes_0.decoding(data.take(width as int));
            &&& declared == MAX_PREFIXED_SIZE && data.len() >= width + MAX_PREFIXED_SIZE
                ==> decode_field(desc, data) == Ok::<(FieldModel, nat), Error>(
                (
                    FieldModel::Bytes {
                        data: data.subrange(width as int, width + MAX_PREFIXED_SIZE),
                    },
                    (width + MAX_PREFIXED_SIZE) as nat,
                ),
            )
            &&& declared == MAX_PREFIXED_SIZE + 1 ==> decode_field(desc, data) == Err::<
                (FieldModel, nat),
                Error,
            >(Error::SizeLimitExceeded { field: desc.name })
        }),
{
}

/// Reading fails in three ways only: the bytes end too early, a declared length is negative,
/// or a declared length is above the size limit.
pub proof fn lemma_decode_failures(schema: Seq<FieldDescriptor>, data: Seq<u8>)
    ensures
        spec_deserialize(schema, data) matches Err(e) ==> e is Truncated || e is InvalidLength
            || e is SizeLimitExceeded,
    decreases schema.len(),
{
    if schema.len() > 0 {
        lemma_decode_failures(schema.drop_last(), data);
    }
}

} // verus!
