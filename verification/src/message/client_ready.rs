use super::{conforms_to, Message};
use crate::error::Error;
use crate::field::{
    encode_fields, models, spec_serialize, within_size_limit, FieldDescriptor, FieldModel,
    FieldValue, WireKind,
};
use crate::keys::{sec1_public_key, PublicKey, MAX_SEC1_LEN};
use crate::wire::{lemma_int_roundtrip, IntKind};
use vstd::prelude::*;

verus! {

/// The message that ends the handshake: the client's public key.
#[derive(Clone, Debug, PartialEq, Eq)]
pub struct ClientReady {
    /// The client's public key, in SEC1 encoding.
    pub public_key: Vec<u8>,
}

impl ClientReady {
    /// The message that carries the given key.
    pub fn new(public_key: PublicKey) -> (r: ClientReady)
        ensures
            r.public_key@ == public_key@,
            sec1_public_key(r.public_key@),
            r.public_key@.len() <= MAX_SEC1_LEN,
    {
        ClientReady { public_key: public_key.to_sec1_bytes() }
    }

    /// The client's public key; `InvalidPublicKey` where the bytes that were received are no
    /// SEC1 encoding of a P-256 public key.
    pub fn public_key(&self) -> (r: Result<PublicKey, Error>)
        ensures
            match r {
                Ok(key) => key@ == self.public_key@ && sec1_public_key(self.public_key@),
                Err(e) => e == Error::InvalidPublicKey && !sec1_public_key(self.public_key@),
            },
    {
        PublicKey::from_sec1_bytes(self.public_key.as_slice())
    }

    /// When the message has bytes, and how many: it has them unless the key is longer than
    /// 32767 bytes, the most that the two-byte signed prefix can say.
    pub proof fn lemma_serialized(&self)
        ensures
            match spec_serialize(Self::spec_schema(), self.fields()) {
                Ok(bytes) => self.public_key@.len() <= 0x7fff && bytes.len() == 2
                    + self.public_key@.len() && within_size_limit(self.fields()),
                Err(e) => self.public_key@.len() > 0x7fff && e == (Error::LengthOverflow {
                    field: "public_key",
                }),
            },
    {
        let schema = Self::spec_schema();
        reveal_with_fuel(encode_fields, 2);
        assert(schema.drop_last() =~= Seq::<FieldDescriptor>::empty());
        if self.public_key@.len() <= 0x7fff {
            lemma_int_roundtrip(IntKind::I16, self.public_key@.len() as int);
        }
    }
}

impl Message for ClientReady {
    open spec fn spec_schema() -> Seq<FieldDescriptor> {
        seq![FieldDescriptor { name: "public_key", kind: WireKind::Bytes(IntKind::I16) }]
    }

    open spec fn fields(&self) -> Seq<FieldModel> {
        seq![FieldModel::Bytes { data: self.public_key@ }]
    }

    proof fn lemma_conforms(&self) {
    }

    fn schema() -> (r: Vec<FieldDescriptor>) {
        let mut r: Vec<FieldDescriptor> = Vec::new();
        r.push(FieldDescriptor { name: "public_key", kind: WireKind::Bytes(IntKind::I16) });
        assert(r@ =~= Self::spec_schema());
        r
    }

    fn to_fields(&self) -> (r: Vec<FieldValue>) {
        let mut r: Vec<FieldValue> = Vec::new();
        r.push(FieldValue::Bytes(vstd::slice::slice_to_vec(self.public_key.as_slice())));
        assert(models(r@) =~= self.fields());
        r
    }

    fn from_fields(values: Vec<FieldValue>) -> (r: Option<Self>) {
        let mut values = values;
        if values.len() != 1 {
            return None;
        }
        let ghost given = models(values@);
        proof {
            assert(given[0] == values@[0]@);
            assert(conforms_to(Self::spec_schema(), given) ==> given[0].conforms(
                Self::spec_schema()[0].kind,
            ));
        }
        match values.pop() {
            Some(FieldValue::Bytes(public_key)) => {
                let ready = ClientReady { public_key };
                assert(ready.fields() =~= given);
                Some(ready)
            },
            _ => None,
        }
    }
}

} // verus!
