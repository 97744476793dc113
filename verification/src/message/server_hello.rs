use super::{conforms_to, Message};
use crate::error::Error;
use crate::field::{
    encode_fields, models, spec_serialize, within_size_limit, FieldDescriptor, FieldModel,
    FieldValue, WireKind,
};
use crate::keys::{der_signature, sec1_public_key, PublicKey, Signature, MAX_DER_LEN, MAX_SEC1_LEN};
use crate::wire::{lemma_int_roundtrip, IntKind};
use vstd::prelude::*;
use vstd::std_specs::convert::{FromSpecImpl, TryFromSpecImpl};

verus! {

/// How the messages of a session are guarded against corruption. The server names it in its
/// greeting by one byte; this library computes no checksum.
#[derive(Clone, Copy, Debug, PartialEq, Eq, Structural)]
pub enum Checksum {
    /// No checksum: byte 0.
    Disabled,
    /// CRC-16: byte 1.
    Crc16,
    /// HMAC-SHA256, cut to the given number of bytes, 4 to 32: that number as the byte.
    HmacSha256(i8),
}

impl Checksum {
    /// The checksum that the byte `size` names, if any.
    pub open spec fn spec_from_code(size: i8) -> Result<Checksum, Error> {
        if size == 0 {
            Ok(Checksum::Disabled)
        } else if size == 1 {
            Ok(Checksum::Crc16)
        } else if 4 <= size <= 32 {
            Ok(Checksum::HmacSha256(size))
        } else {
            Err(Error::InvalidChecksumConfig)
        }
    }

    /// The byte that names the checksum.
    pub open spec fn spec_code(self) -> i8 {
        match self {
            Checksum::Disabled => 0,
            Checksum::Crc16 => 1,
            Checksum::HmacSha256(size) => size,
        }
    }

    /// Whether the checksum is one that a byte names: an HMAC is cut to 4 to 32 bytes.
    pub open spec fn spec_is_valid(self) -> bool {
        self matches Checksum::HmacSha256(size) ==> 4 <= size <= 32
    }

    /// Whether the checksum is one that a byte names: an HMAC is cut to 4 to 32 bytes.
    #[verifier::when_used_as_spec(spec_is_valid)]
    pub fn is_valid(self) -> (r: bool)
        ensures
            r == self.spec_is_valid(),
    {
        match self {
            Checksum::HmacSha256(size) => 4 <= size && size <= 32,
            _ => true,
        }
    }

    /// The checksum that the byte `size` names: 0, 1, or 4 to 32; `InvalidChecksumConfig` for
    /// any other byte.
    pub fn from_code(size: i8) -> (r: Result<Checksum, Error>)
        ensures
            r == Self::spec_from_code(size),
    {
        if size == 0 {
            Ok(Checksum::Disabled)
        } else if size == 1 {
            Ok(Checksum::Crc16)
        } else if 4 <= size && size <= 32 {
            Ok(Checksum::HmacSha256(size))
        } else {
            Err(Error::InvalidChecksumConfig)
        }
    }

    /// The byte that names the checksum.
    #[verifier::when_used_as_spec(spec_code)]
    pub fn code(self) -> (r: i8)
        ensures
            r == self.spec_code(),
    {
        match self {
            Checksum::Disabled => 0,
            Checksum::Crc16 => 1,
            Checksum::HmacSha256(size) => size,
        }
    }

    /// A byte names at most one checksum, and a valid checksum is named by its byte: the two
    /// conversions undo each other.
    pub proof fn lemma_code_roundtrip(checksum: Checksum, size: i8)
        ensures
            checksum.is_valid() <==> Self::spec_from_code(checksum.spec_code()) == Ok::<
                Checksum,
                Error,
            >(checksum),
            Self::spec_from_code(size) matches Ok(c) ==> c.is_valid() && c.spec_code() == size,
    {
    }
}

impl TryFrom<i8> for Checksum {
    type Error = Error;

    fn try_from(size: i8) -> (r: Result<Checksum, Error>) {
        Checksum::from_code(size)
    }
}

impl TryFromSpecImpl<i8> for Checksum {
    open spec fn obeys_try_from_spec() -> bool {
        true
    }

    open spec fn try_from_spec(size: i8) -> Result<Checksum, Error> {
        Checksum::spec_from_code(size)
    }
}

impl From<Checksum> for i8 {
    fn from(checksum: Checksum) -> (r: i8) {
        checksum.code()
    }
}

impl FromSpecImpl<Checksum> for i8 {
    open spec fn obeys_from_spec() -> bool {
        true
    }

    open spec fn from_spec(checksum: Checksum) -> i8 {
        checksum.spec_code()
    }
}

/// The server's answer to the client's greeting: its public key, its signature over that
/// key, and the checksum that the session is to use.
///
/// The signature is carried, not verified: whoever trusts the handshake verifies it first.
#[derive(Clone, Debug, PartialEq, Eq)]
pub struct ServerHello {
    /// The server's public key, in SEC1 encoding.
    pub public_key: Vec<u8>,
    /// The server's signature over its public key, in DER encoding.
    pub signature: Vec<u8>,
    /// The byte that names the checksum.
    pub checksum_size: i8,
}

impl ServerHello {
    /// The answer that carries the given key, signature and checksum.
    pub fn new(public_key: PublicKey, signature: Signature, checksum: Checksum) -> (r: ServerHello)
        ensures
            r.public_key@ == public_key@,
            r.signature@ == signature@,
            r.checksum_size == checksum.spec_code(),
            sec1_public_key(r.public_key@),
            r.public_key@.len() <= MAX_SEC1_LEN,
            der_signature(r.signature@),
            r.signature@.len() <= MAX_DER_LEN,
    {
        ServerHello {
            public_key: public_key.to_sec1_bytes(),
            signature: signature.to_der(),
            checksum_size: checksum.code(),
        }
    }

    /// The server's public key; `InvalidPublicKey` where the bytes that were received are no
    /// SEC1 encoding of a P-256 public key.
    pub fn public_key(&self) -> (r: Result<PublicKey, Error>)
        ensures
            match r {
                Ok(key) => key@ == self.public_key@ && sec1_public_key(self.public_key@),
                Err(e) => e == Error::InvalidPublicKey && !sec1_public_key(self.public_key@),
            },
    {
        PublicKey::from_sec1_bytes(self.public_key.as_slice())
    }

    /// The server's signature; `InvalidSignature` where the bytes that were received are no
    /// DER encoding of a P-256 ECDSA signature.
    pub fn signature(&self) -> (r: Result<Signature, Error>)
        ensures
            match r {
                Ok(signature) => signature@ == self.signature@ && self.signature@.len()
                    <= MAX_DER_LEN && der_signature(self.signature@),
                Err(e) => e == Error::InvalidSignature && !(self.signature@.len() <= MAX_DER_LEN
                    && der_signature(self.signature@)),
            },
    {
        Signature::from_der(self.signature.as_slice())
    }

    /// The byte that names the checksum, as it was received.
    pub fn checksum_size(&self) -> (r: i8)
        ensures
            r == self.checksum_size,
    {
        self.checksum_size
    }

    /// The checksum that the server asks for; `InvalidChecksumConfig` where the byte that was
    /// received names none.
    pub fn checksum(&self) -> (r: Result<Checksum, Error>)
        ensures
            r == Checksum::spec_from_code(self.checksum_size),
    {
        Checksum::from_code(self.checksum_size)
    }

    /// When an answer has bytes, and how many: it has them unless the key or the signature
    /// is longer than 32767 bytes, the most that the two-byte signed prefix can say; the
    /// first of the two that is too long is named in the failure.
    pub proof fn lemma_serialized(&self)
        ensures
            match spec_serialize(Self::spec_schema(), self.fields()) {
                Ok(bytes) => self.public_key@.len() <= 0x7fff && self.signature@.len() <= 0x7fff
                    && bytes.len() == 2 + self.public_key@.len() + 2 + self.signature@.len() + 1
                    && within_size_limit(self.fields()),
                Err(e) => if self.public_key@.len() > 0x7fff {
                    e == (Error::LengthOverflow { field: "public_key" })
                } else {
                    self.signature@.len() > 0x7fff && e == (Error::LengthOverflow {
                        field: "signature",
                    })
                },
            },
    {
        let schema = Self::spec_schema();
        let values = self.fields();
        reveal_with_fuel(encode_fields, 4);
        assert(schema.drop_last().drop_last().drop_last() =~= Seq::<FieldDescriptor>::empty());
        if self.public_key@.len() <= 0x7fff {
            lemma_int_roundtrip(IntKind::I16, self.public_key@.len() as int);
        }
        if self.signature@.len() <= 0x7fff {
            lemma_int_roundtrip(IntKind::I16, self.signature@.len() as int);
        }
        lemma_int_roundtrip(IntKind::I8, self.checksum_size as int);
    }
}

impl Message for ServerHello {
    open spec fn spec_schema() -> Seq<FieldDescriptor> {
        seq![
            FieldDescriptor { name: "public_key", kind: WireKind::Bytes(IntKind::I16) },
            FieldDescriptor { name: "signature", kind: WireKind::Bytes(IntKind::I16) },
            FieldDescriptor { name: "checksum_size", kind: WireKind::Int(IntKind::I8) },
        ]
    }

    open spec fn fields(&self) -> Seq<FieldModel> {
        seq![
            FieldModel::Bytes { data: self.public_key@ },
            FieldModel::Bytes { data: self.signature@ },
            FieldModel::Int { kind: IntKind::I8, value: self.checksum_size as int },
        ]
    }

    proof fn lemma_conforms(&self) {
    }

    fn schema() -> (r: Vec<FieldDescriptor>) {
        let mut r: Vec<FieldDescriptor> = Vec::new();
        r.push(FieldDescriptor { name: "public_key", kind: WireKind::Bytes(IntKind::I16) });
        r.push(FieldDescriptor { name: "signature", kind: WireKind::Bytes(IntKind::I16) });
        r.push(FieldDescriptor { name: "checksum_size", kind: WireKind::Int(IntKind::I8) });
        assert(r@ =~= Self::spec_schema());
        r
    }

    fn to_fields(&self) -> (r: Vec<FieldValue>) {
        let mut r: Vec<FieldValue> = Vec::new();
        r.push(FieldValue::Bytes(vstd::slice::slice_to_vec(self.public_key.as_slice())));
        r.push(FieldValue::Bytes(vstd::slice::slice_to_vec(self.signature.as_slice())));
        r.push(FieldValue::I8(self.checksum_size));
        assert(models(r@) =~= self.fields());
        r
    }

    fn from_fields(values: Vec<FieldValue>) -> (r: Option<Self>) {
        let mut values = values;
        if values.len() != 3 {
            return None;
        }
        let ghost given = models(values@);
        proof {
            assert(given[0] == values@[0]@ && given[1] == values@[1]@ && given[2] == values@[2]@);
            assert(conforms_to(Self::spec_schema(), given) ==> given[0].conforms(
                Self::spec_schema()[0].kind,
            ) && given[1].conforms(Self::spec_schema()[1].kind) && given[2].conforms(
                Self::spec_schema()[2].kind,
            ));
        }
        let checksum_size = values.pop();
        let signature = values.pop();
        let public_key = values.pop();
        match (public_key, signature, checksum_size) {
            (
                Some(FieldValue::Bytes(public_key)),
                Some(FieldValue::Bytes(signature)),
                Some(FieldValue::I8(checksum_size)),
            ) => {
                let hello = ServerHello { public_key, signature, checksum_size };
                assert(hello.fields() =~= given);
                Some(hello)
            },
            _ => None,
        }
    }
}

} // verus!
