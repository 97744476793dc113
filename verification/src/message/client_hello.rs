use super::{conforms_to, Message};
use crate::error::Error;
use crate::field::{
    encode_fields, lemma_roundtrip, models, spec_deserialize, spec_serialize, within_size_limit,
    FieldDescriptor, FieldModel, FieldValue, WireKind,
};
use crate::wire::{lemma_int_roundtrip, IntKind};
use vstd::prelude::*;

verus! {

/// The greeting that opens the handshake, sent by the client.
///
/// It carries an integrity value and the time of sending, both hidden behind two constants
/// that client and server have agreed on. The constants are no secret, and the XOR chain is
/// no checksum: it is undone exactly, and detects no tampering.
#[derive(Clone, Copy, Debug, PartialEq, Eq, Structural)]
pub struct ClientHello {
    /// The integrity value, XORed with the primary constant.
    pub obfuscated_integrity: i64,
    /// The time in milliseconds since the Unix epoch, XORed with the integrity value and the
    /// secondary constant.
    pub obfuscated_timestamp: i64,
}

/// Calls `rand::random` for a signed 64-bit integer. Nothing is known of what it returns.
#[verifier::external_body]
fn random_i64() -> i64 {
    rand::random()
}

impl ClientHello {
    /// The greeting for the given integrity value and time.
    pub open spec fn spec_new(
        integrity: i64,
        timestamp_millis: i64,
        primary_obfuscation_value: i64,
        secondary_obfuscation_value: i64,
    ) -> ClientHello {
        ClientHello {
            obfuscated_integrity: integrity ^ primary_obfuscation_value,
            obfuscated_timestamp: timestamp_millis ^ integrity ^ secondary_obfuscation_value,
        }
    }

    /// The integrity value of the greeting.
    pub open spec fn spec_integrity(&self, primary_obfuscation_value: i64) -> i64 {
        self.obfuscated_integrity ^ primary_obfuscation_value
    }

    /// The time of the greeting, as a signed number of milliseconds.
    pub open spec fn spec_timestamp_millis(
        &self,
        primary_obfuscation_value: i64,
        secondary_obfuscation_value: i64,
    ) -> i64 {
        self.obfuscated_timestamp ^ self.spec_integrity(primary_obfuscation_value)
            ^ secondary_obfuscation_value
    }

    /// The greeting for the integrity value `integrity`, sent `timestamp_millis` milliseconds
    /// after the Unix epoch.
    ///
    /// Fails with `TimestampOutOfRange` if the time does not fit the signed 64-bit field.
    pub fn new(
        integrity: i64,
        timestamp_millis: u64,
        primary_obfuscation_value: i64,
        secondary_obfuscation_value: i64,
    ) -> (r: Result<ClientHello, Error>)
        ensures
            match r {
                Ok(hello) => timestamp_millis <= i64::MAX && hello == Self::spec_new(
                    integrity,
                    timestamp_millis as i64,
                    primary_obfuscation_value,
                    secondary_obfuscation_value,
                ),
                Err(e) => timestamp_millis > i64::MAX && e == Error::TimestampOutOfRange,
            },
    {
        if timestamp_millis > i64::MAX as u64 {
            return Err(Error::TimestampOutOfRange);
        }
        let millis: i64 = timestamp_millis as i64;
        Ok(
            ClientHello {
                obfuscated_integrity: integrity ^ primary_obfuscation_value,
                obfuscated_timestamp: millis ^ integrity ^ secondary_obfuscation_value,
            },
        )
    }

    /// A greeting with an integrity value drawn at random, sent `timestamp_millis`
    /// milliseconds after the Unix epoch.
    ///
    /// Fails with `TimestampOutOfRange` if the time does not fit the signed 64-bit field.
    /// Whatever integrity value was drawn, the greeting is the one that `new` makes for it,
    /// and the time is read back from it.
    pub fn generate(
        timestamp_millis: u64,
        primary_obfuscation_value: i64,
        secondary_obfuscation_value: i64,
    ) -> (r: Result<ClientHello, Error>)
        ensures
            match r {
                Ok(hello) => timestamp_millis <= i64::MAX && hello == Self::spec_new(
                    hello.spec_integrity(primary_obfuscation_value),
                    timestamp_millis as i64,
                    primary_obfuscation_value,
                    secondary_obfuscation_value,
                ) && hello.spec_timestamp_millis(
                    primary_obfuscation_value,
                    secondary_obfuscation_value,
                ) == timestamp_millis,
                Err(e) => timestamp_millis > i64::MAX && e == Error::TimestampOutOfRange,
            },
    {
        let integrity: i64 = random_i64();
        proof {
            if timestamp_millis <= i64::MAX {
                Self::lemma_recovers(
                    integrity,
                    timestamp_millis as i64,
                    primary_obfuscation_value,
                    secondary_obfuscation_value,
                );
            }
        }
        Self::new(
            integrity,
            timestamp_millis,
            primary_obfuscation_value,
            secondary_obfuscation_value,
        )
    }

    /// The integrity value of the greeting.
    #[verifier::when_used_as_spec(spec_integrity)]
    pub fn integrity(&self, primary_obfuscation_value: i64) -> (r: i64)
        ensures
            r == self.spec_integrity(primary_obfuscation_value),
    {
        self.obfuscated_integrity ^ primary_obfuscation_value
    }

    /// The time of the greeting, in milliseconds since the Unix epoch.
    ///
    /// Fails with `TimestampOutOfRange` if what is read back is negative.
    pub fn timestamp(&self, primary_obfuscation_value: i64, secondary_obfuscation_value: i64) -> (r:
        Result<u64, Error>)
        ensures
            match r {
                Ok(millis) => millis == self.spec_timestamp_millis(
                    primary_obfuscation_value,
                    secondary_obfuscation_value,
                ),
                Err(e) => e == Error::TimestampOutOfRange && self.spec_timestamp_millis(
                    primary_obfuscation_value,
                    secondary_obfuscation_value,
                ) < 0,
            },
    {
        let millis: i64 = self.obfuscated_timestamp ^ self.integrity(primary_obfuscation_value)
            ^ secondary_obfuscation_value;
        if millis < 0 {
            Err(Error::TimestampOutOfRange)
        } else {
            Ok(millis as u64)
        }
    }

    /// Handshake obfuscation is undone exactly: whatever the integrity value, the time and
    /// the two constants, the greeting made from them gives back the same integrity value and
    /// the same time.
    pub proof fn lemma_recovers(
        integrity: i64,
        timestamp_millis: i64,
        primary_obfuscation_value: i64,
        secondary_obfuscation_value: i64,
    )
        ensures
            Self::spec_new(
                integrity,
                timestamp_millis,
                primary_obfuscation_value,
                secondary_obfuscation_value,
            ).spec_integrity(primary_obfuscation_value) == integrity,
            Self::spec_new(
                integrity,
                timestamp_millis,
                primary_obfuscation_value,
                secondary_obfuscation_value,
            ).spec_timestamp_millis(primary_obfuscation_value, secondary_obfuscation_value)
                == timestamp_millis,
    {
        let i = integrity;
        let t = timestamp_millis;
        let p = primary_obfuscation_value;
        let s = secondary_obfuscation_value;
        assert((i ^ p) ^ p == i) by (bit_vector);
        assert((t ^ i ^ s) ^ ((i ^ p) ^ p) ^ s == t) by (bit_vector);
    }

    /// A greeting is what its two fields are.
    pub proof fn lemma_fields_determine(a: ClientHello, b: ClientHello)
        requires
            a.fields() == b.fields(),
        ensures
            a == b,
    {
        assert(a.fields()[0] == b.fields()[0]);
        assert(a.fields()[1] == b.fields()[1]);
    }

    /// Writing a greeting and reading it again gives back what it was made from: the greeting
    /// for any integrity value, time and constants is written as 16 bytes; reading those
    /// bytes, whatever follows them, takes 16 bytes and yields a greeting with the same
    /// fields; and that greeting gives back the same integrity value and the same time.
    pub proof fn lemma_wire_roundtrip(
        integrity: i64,
        timestamp_millis: i64,
        primary_obfuscation_value: i64,
        secondary_obfuscation_value: i64,
        rest: Seq<u8>,
    )
        ensures
            ({
                let hello = Self::spec_new(
                    integrity,
                    timestamp_millis,
                    primary_obfuscation_value,
                    secondary_obfuscation_value,
                );
                let written = spec_serialize(Self::spec_schema(), hello.fields());
                &&& written matches Ok(bytes) && bytes.len() == 16 && spec_deserialize(
                    Self::spec_schema(),
                    bytes + rest,
                ) == Ok::<(Seq<FieldModel>, nat), Error>((hello.fields(), 16))
                &&& forall|read: ClientHello| #[trigger]
                    read.fields() == hello.fields() ==> read.spec_integrity(
                        primary_obfuscation_value,
                    ) == integrity && read.spec_timestamp_millis(
                        primary_obfuscation_value,
                        secondary_obfuscation_value,
                    ) == timestamp_millis
            }),
    {
        let hello = Self::spec_new(
            integrity,
            timestamp_millis,
            primary_obfuscation_value,
            secondary_obfuscation_value,
        );
        hello.lemma_serialized();
        lemma_roundtrip(Self::spec_schema(), hello.fields(), rest);
        Self::lemma_recovers(
            integrity,
            timestamp_millis,
            primary_obfuscation_value,
            secondary_obfuscation_value,
        );
        assert forall|read: ClientHello| #[trigger] read.fields() == hello.fields() implies read
            == hello by {
            Self::lemma_fields_determine(read, hello);
        }
    }

    /// Every greeting has bytes: 16 of them.
    pub proof fn lemma_serialized(&self)
        ensures
            spec_serialize(Self::spec_schema(), self.fields()) matches Ok(bytes) && bytes.len()
                == 16,
            within_size_limit(self.fields()),
    {
        let schema = Self::spec_schema();
        let values = self.fields();
        reveal_with_fuel(encode_fields, 3);
        lemma_int_roundtrip(IntKind::I64, self.obfuscated_integrity as int);
        lemma_int_roundtrip(IntKind::I64, self.obfuscated_timestamp as int);
        assert(schema.drop_last().drop_last() =~= Seq::<FieldDescriptor>::empty());
    }
}

impl Message for ClientHello {
    open spec fn spec_schema() -> Seq<FieldDescriptor> {
        seq![
            FieldDescriptor { name: "obfuscated_integrity", kind: WireKind::Int(IntKind::I64) },
            FieldDescriptor { name: "obfuscated_timestamp", kind: WireKind::Int(IntKind::I64) },
        ]
    }

    open spec fn fields(&self) -> Seq<FieldModel> {
        seq![
            FieldModel::Int { kind: IntKind::I64, value: self.obfuscated_integrity as int },
            FieldModel::Int { kind: IntKind::I64, value: self.obfuscated_timestamp as int },
        ]
    }

    proof fn lemma_conforms(&self) {
    }

    fn schema() -> (r: Vec<FieldDescriptor>) {
        let mut r: Vec<FieldDescriptor> = Vec::new();
        r.push(
            FieldDescriptor { name: "obfuscated_integrity", kind: WireKind::Int(IntKind::I64) },
        );
        r.push(
            FieldDescriptor { name: "obfuscated_timestamp", kind: WireKind::Int(IntKind::I64) },
        );
        assert(r@ =~= Self::spec_schema());
        r
    }

    fn to_fields(&self) -> (r: Vec<FieldValue>) {
        let mut r: Vec<FieldValue> = Vec::new();
        r.push(FieldValue::I64(self.obfuscated_integrity));
        r.push(FieldValue::I64(self.obfuscated_timestamp));
        assert(models(r@) =~= self.fields());
        r
    }

    fn from_fields(values: Vec<FieldValue>) -> (r: Option<Self>) {
        if values.len() != 2 {
            return None;
        }
        proof {
            let m = models(values@);
            assert(m[0] == values@[0]@ && m[1] == values@[1]@);
            assert(conforms_to(Self::spec_schema(), m) ==> m[0].conforms(
                Self::spec_schema()[0].kind,
            ) && m[1].conforms(Self::spec_schema()[1].kind));
        }
        match (&values[0], &values[1]) {
            (FieldValue::I64(integrity), FieldValue::I64(timestamp)) => {
                let hello = ClientHello {
                    obfuscated_integrity: *integrity,
                    obfuscated_timestamp: *timestamp,
                };
                assert(hello.fields() =~= models(values@));
                Some(hello)
            },
            _ => None,
        }
    }
}

} // verus!
