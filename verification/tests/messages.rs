use p256::ecdsa::signature::Signer;
use p256::elliptic_curve::sec1::ToEncodedPoint;
use pokemmo::error::Error;
use pokemmo::field::{FieldDescriptor, FieldValue, WireKind};
use pokemmo::handshake::Context;
use pokemmo::keys::{PublicKey, Signature};
use pokemmo::message::{Checksum, ClientHello, ClientReady, Message, ServerHello};
use pokemmo::wire::IntKind;

fn secret(seed: u8) -> p256::SecretKey {
    p256::SecretKey::from_slice(&[seed; 32]).unwrap()
}

fn key_bytes(seed: u8) -> Vec<u8> {
    secret(seed).public_key().to_sec1_bytes().to_vec()
}

fn signature_bytes(seed: u8, message: &[u8]) -> Vec<u8> {
    let signing_key = p256::ecdsa::SigningKey::from(&secret(seed));
    let signature: p256::ecdsa::Signature = signing_key.sign(message);
    signature.to_der().as_bytes().to_vec()
}

#[test]
fn test_demo_client_hello() {
    let msg = ClientHello { obfuscated_integrity: 12345, obfuscated_timestamp: 67890 };

    // Test serialization
    let serialized = msg.serialize().unwrap();
    assert_eq!(serialized.len(), 16); // 8 bytes + 8 bytes

    // Test deserialization
    let deserialized = ClientHello::deserialize(&serialized).unwrap();
    assert_eq!(deserialized.obfuscated_integrity, 12345);
    assert_eq!(deserialized.obfuscated_timestamp, 67890);
}

#[test]
fn test_demo_client_ready() {
    let msg = ClientReady { public_key: vec![1, 2, 3, 4, 5] };

    // Test serialization
    let serialized = msg.serialize().unwrap();
    // 2 bytes (i16 length) + 5 bytes (data) = 7 bytes
    assert_eq!(serialized.len(), 7);
    assert_eq!(&serialized[0..2], &5i16.to_le_bytes());
    assert_eq!(&serialized[2..7], &[1, 2, 3, 4, 5]);

    // Test deserialization
    let deserialized = ClientReady::deserialize(&serialized).unwrap();
    assert_eq!(deserialized.public_key, vec![1, 2, 3, 4, 5]);
}

#[test]
fn test_demo_server_hello() {
    let msg = ServerHello {
        public_key: vec![10, 20, 30],
        signature: vec![40, 50],
        checksum_size: 16,
    };

    // Test serialization
    let serialized = msg.serialize().unwrap();

    // Test deserialization
    let deserialized = ServerHello::deserialize(&serialized).unwrap();
    assert_eq!(deserialized.public_key, vec![10, 20, 30]);
    assert_eq!(deserialized.signature, vec![40, 50]);
    assert_eq!(deserialized.checksum_size, 16);
    assert_eq!(serialized, vec![3, 0, 10, 20, 30, 2, 0, 40, 50, 16]);
}

#[test]
fn test_macro_reduces_boilerplate() {
    // A message type is its table of fields and two conversions; writing and reading come
    // with the trait.
    assert!(true);
    assert_eq!(ClientHello::schema().len(), 2);
    assert_eq!(ClientReady::schema().len(), 1);
    assert_eq!(ServerHello::schema().len(), 3);
}

#[test]
fn message_tables_name_their_fields() {
    assert_eq!(
        ClientHello::schema(),
        vec![
            FieldDescriptor { name: "obfuscated_integrity", kind: WireKind::Int(IntKind::I64) },
            FieldDescriptor { name: "obfuscated_timestamp", kind: WireKind::Int(IntKind::I64) },
        ]
    );
    assert_eq!(
        ServerHello::schema(),
        vec![
            FieldDescriptor { name: "public_key", kind: WireKind::Bytes(IntKind::I16) },
            FieldDescriptor { name: "signature", kind: WireKind::Bytes(IntKind::I16) },
            FieldDescriptor { name: "checksum_size", kind: WireKind::Int(IntKind::I8) },
        ]
    );
    assert_eq!(
        ClientReady::schema(),
        vec![FieldDescriptor { name: "public_key", kind: WireKind::Bytes(IntKind::I16) }]
    );
}

#[test]
fn messages_convert_to_and_from_field_values() {
    let hello = ClientHello { obfuscated_integrity: -1, obfuscated_timestamp: 2 };
    assert_eq!(hello.to_fields(), vec![FieldValue::I64(-1), FieldValue::I64(2)]);
    assert_eq!(ClientHello::from_fields(hello.to_fields()), Some(hello));
    assert_eq!(ClientHello::from_fields(vec![FieldValue::I64(1)]), None);
    assert_eq!(ClientHello::from_fields(vec![FieldValue::I64(1), FieldValue::U64(1)]), None);

    let answer = ServerHello { public_key: vec![1], signature: vec![2, 3], checksum_size: -4 };
    assert_eq!(
        answer.to_fields(),
        vec![FieldValue::Bytes(vec![1]), FieldValue::Bytes(vec![2, 3]), FieldValue::I8(-4)]
    );
    assert_eq!(ServerHello::from_fields(answer.to_fields()), Some(answer));
    assert_eq!(
        ServerHello::from_fields(vec![
            FieldValue::Bytes(vec![1]),
            FieldValue::I8(0),
            FieldValue::Bytes(vec![2])
        ]),
        None
    );

    let ready = ClientReady { public_key: vec![9, 9] };
    assert_eq!(ready.to_fields(), vec![FieldValue::Bytes(vec![9, 9])]);
    assert_eq!(ClientReady::from_fields(ready.to_fields()), Some(ready));
    assert_eq!(ClientReady::from_fields(vec![]), None);
}

#[test]
fn truncated_messages_name_the_field_that_is_cut() {
    assert_eq!(
        ClientHello::deserialize(&[0u8; 15]),
        Err(Error::Truncated { field: "obfuscated_timestamp" })
    );
    assert_eq!(
        ClientHello::deserialize(&[0u8; 7]),
        Err(Error::Truncated { field: "obfuscated_integrity" })
    );
    assert_eq!(ClientReady::deserialize(&[5]), Err(Error::Truncated { field: "public_key" }));
    assert_eq!(
        ClientReady::deserialize(&[5, 0, 1, 2, 3, 4]),
        Err(Error::Truncated { field: "public_key" })
    );
    assert_eq!(
        ServerHello::deserialize(&[1, 0, 7, 2, 0, 8]),
        Err(Error::Truncated { field: "signature" })
    );
    assert_eq!(
        ServerHello::deserialize(&[1, 0, 7, 1, 0, 8]),
        Err(Error::Truncated { field: "checksum_size" })
    );
    assert_eq!(
        ServerHello::deserialize(&[1, 0, 7, 0xff, 0xff]),
        Err(Error::InvalidLength { field: "signature" })
    );
}

#[test]
fn a_message_says_how_many_bytes_it_took() {
    let hello = ClientHello { obfuscated_integrity: 1, obfuscated_timestamp: 2 };
    let mut bytes = hello.serialize().unwrap();
    bytes.extend_from_slice(&[9, 9, 9]);
    assert_eq!(ClientHello::deserialize_prefix(&bytes), Ok((hello, 16)));
    assert_eq!(ClientHello::deserialize(&bytes), Ok(hello));
    let answer = ServerHello { public_key: vec![1, 2], signature: vec![], checksum_size: 0 };
    let mut bytes = answer.serialize().unwrap();
    bytes.push(0xee);
    assert_eq!(ServerHello::deserialize_prefix(&bytes), Ok((answer, 7)));
    assert_eq!(
        ClientReady::deserialize_prefix(&[1, 0]),
        Err(Error::Truncated { field: "public_key" })
    );
}

#[test]
fn a_key_too_long_for_its_prefix_is_not_written() {
    let ready = ClientReady { public_key: vec![0u8; 32768] };
    assert_eq!(ready.serialize(), Err(Error::LengthOverflow { field: "public_key" }));
    let answer = ServerHello { public_key: vec![], signature: vec![0u8; 40000], checksum_size: 0 };
    assert_eq!(answer.serialize(), Err(Error::LengthOverflow { field: "signature" }));
}

#[test]
fn client_hello_hides_and_recovers_integrity_and_time() {
    let context = Context::default();
    let primary = context.primary_obfuscation_value;
    let secondary = context.secondary_obfuscation_value;
    assert_eq!(primary, 3214621489648854472);
    assert_eq!(secondary, -4214651440992349575);

    let timestamp: u64 = 1_700_000_000_123;
    let hello = ClientHello::new(12345, timestamp, primary, secondary).unwrap();
    assert_eq!(hello.obfuscated_integrity, 12345 ^ primary);
    assert_eq!(hello.obfuscated_timestamp, (timestamp as i64) ^ 12345 ^ secondary);

    // the greeting is written as 16 bytes whose first 8 are the hidden integrity value
    let bytes = hello.serialize().unwrap();
    assert_eq!(bytes.len(), 16);
    assert_eq!(&bytes[0..8], &(12345i64 ^ primary).to_le_bytes());
    assert_eq!(&bytes[8..16], &((timestamp as i64) ^ 12345 ^ secondary).to_le_bytes());

    let read = ClientHello::deserialize(&bytes).unwrap();
    assert_eq!(read, hello);
    assert_eq!(read.integrity(primary), 12345);
    assert_eq!(read.timestamp(primary, secondary), Ok(timestamp));
}

#[test]
fn client_hello_recovery_is_exact_for_any_constants() {
    let cases: Vec<(i64, u64, i64, i64)> = vec![
        (0, 0, 0, 0),
        (-1, i64::MAX as u64, i64::MIN, i64::MAX),
        (i64::MIN, 1, -1, 1),
        (i64::MAX, 1_700_000_000_000, 0x5555_5555_5555_5555, -0x1234_5678_9abc_def0),
        (42, 42, 42, 42),
    ];
    for (integrity, timestamp, primary, secondary) in cases {
        let hello = ClientHello::new(integrity, timestamp, primary, secondary).unwrap();
        let read = ClientHello::deserialize(&hello.serialize().unwrap()).unwrap();
        assert_eq!(read.integrity(primary), integrity);
        assert_eq!(read.timestamp(primary, secondary), Ok(timestamp));
    }
}

#[test]
fn client_hello_refuses_a_time_that_does_not_fit() {
    assert_eq!(ClientHello::new(1, i64::MAX as u64 + 1, 2, 3), Err(Error::TimestampOutOfRange));
    assert_eq!(ClientHello::new(1, u64::MAX, 2, 3), Err(Error::TimestampOutOfRange));
    assert!(ClientHello::new(1, i64::MAX as u64, 2, 3).is_ok());
    // a greeting whose hidden time is negative once the constants are taken off
    let hello = ClientHello { obfuscated_integrity: 0, obfuscated_timestamp: -1 };
    assert_eq!(hello.timestamp(0, 0), Err(Error::TimestampOutOfRange));
    assert_eq!(hello.integrity(7), 7);
}

#[test]
fn a_generated_client_hello_gives_back_its_time() {
    let context = Context::default();
    let primary = context.primary_obfuscation_value;
    let secondary = context.secondary_obfuscation_value;
    let a = ClientHello::generate(1_700_000_000_000, primary, secondary).unwrap();
    assert_eq!(a.timestamp(primary, secondary), Ok(1_700_000_000_000));
    assert_eq!(
        ClientHello::new(a.integrity(primary), 1_700_000_000_000, primary, secondary),
        Ok(a)
    );
    assert_eq!(
        ClientHello::generate(u64::MAX, primary, secondary),
        Err(Error::TimestampOutOfRange)
    );
    // integrity values are drawn afresh: among a few draws at least two differ
    let draws: Vec<i64> = (0..8)
        .map(|_| ClientHello::generate(5, primary, secondary).unwrap().integrity(primary))
        .collect();
    assert!(draws.iter().any(|d| *d != draws[0]));
}

#[test]
fn checksum_bytes() {
    assert_eq!(Checksum::from_code(0), Ok(Checksum::Disabled));
    assert_eq!(Checksum::from_code(1), Ok(Checksum::Crc16));
    assert_eq!(Checksum::from_code(4), Ok(Checksum::HmacSha256(4)));
    assert_eq!(Checksum::from_code(16), Ok(Checksum::HmacSha256(16)));
    assert_eq!(Checksum::from_code(32), Ok(Checksum::HmacSha256(32)));
    for bad in [2i8, 3, 33, 127, -1, -128] {
        assert_eq!(Checksum::from_code(bad), Err(Error::InvalidChecksumConfig));
        assert_eq!(Checksum::try_from(bad), Err(Error::InvalidChecksumConfig));
    }
    assert_eq!(Checksum::Disabled.code(), 0);
    assert_eq!(Checksum::Crc16.code(), 1);
    assert_eq!(Checksum::HmacSha256(20).code(), 20);
    let byte: i8 = Checksum::HmacSha256(32).into();
    assert_eq!(byte, 32);
    assert_eq!(Checksum::try_from(1i8), Ok(Checksum::Crc16));
    for size in i8::MIN..=i8::MAX {
        if let Ok(checksum) = Checksum::from_code(size) {
            assert!(checksum.is_valid());
            assert_eq!(checksum.code(), size);
        }
    }
    assert!(!Checksum::HmacSha256(3).is_valid());
    assert!(!Checksum::HmacSha256(33).is_valid());
    assert!(Checksum::Disabled.is_valid());
}

#[test]
fn public_keys_are_what_the_parser_accepts() {
    let uncompressed = key_bytes(1);
    assert_eq!(uncompressed.len(), 65);
    assert_eq!(uncompressed[0], 4);
    let key = PublicKey::from_sec1_bytes(&uncompressed).unwrap();
    assert_eq!(key.to_sec1_bytes(), uncompressed);
    assert_eq!(key.duplicate().to_sec1_bytes(), uncompressed);

    let compressed = secret(1).public_key().to_encoded_point(true).as_bytes().to_vec();
    assert_eq!(compressed.len(), 33);
    assert_eq!(PublicKey::from_sec1_bytes(&compressed).unwrap().to_sec1_bytes(), compressed);

    assert_eq!(PublicKey::from_sec1_bytes(&[]).err(), Some(Error::InvalidPublicKey));
    assert_eq!(PublicKey::from_sec1_bytes(&[1, 2, 3, 4, 5]).err(), Some(Error::InvalidPublicKey));
    // the point at infinity is no public key
    assert_eq!(PublicKey::from_sec1_bytes(&[0]).err(), Some(Error::InvalidPublicKey));
    // right tag and length, but not on the curve
    let mut off_curve = uncompressed.clone();
    off_curve[64] ^= 1;
    assert_eq!(PublicKey::from_sec1_bytes(&off_curve).err(), Some(Error::InvalidPublicKey));
    // a byte too many
    let mut long = uncompressed.clone();
    long.push(0);
    assert_eq!(PublicKey::from_sec1_bytes(&long).err(), Some(Error::InvalidPublicKey));
}

#[test]
fn signatures_are_what_the_parser_accepts() {
    let der = signature_bytes(2, b"the server's public key");
    assert!(der.len() <= 72);
    assert_eq!(der[0], 0x30);
    let signature = Signature::from_der(&der).unwrap();
    assert_eq!(signature.to_der(), der);
    assert_eq!(signature.duplicate().to_der(), der);

    assert_eq!(Signature::from_der(&[]).err(), Some(Error::InvalidSignature));
    assert_eq!(Signature::from_der(&[40, 50]).err(), Some(Error::InvalidSignature));
    let mut trailing = der.clone();
    trailing.push(0);
    assert_eq!(Signature::from_der(&trailing).err(), Some(Error::InvalidSignature));
    assert_eq!(Signature::from_der(&[0x30; 74]).err(), Some(Error::InvalidSignature));
    assert_eq!(Signature::from_der(&[0u8; 4096]).err(), Some(Error::InvalidSignature));
}

#[test]
fn server_hello_carries_key_signature_and_checksum() {
    let key = key_bytes(3);
    let der = signature_bytes(3, &key);
    let answer = ServerHello::new(
        PublicKey::from_sec1_bytes(&key).unwrap(),
        Signature::from_der(&der).unwrap(),
        Checksum::HmacSha256(16),
    );
    assert_eq!(answer.public_key, key);
    assert_eq!(answer.signature, der);
    assert_eq!(answer.checksum_size, 16);

    let bytes = answer.serialize().unwrap();
    assert_eq!(bytes.len(), 2 + 65 + 2 + der.len() + 1);
    assert_eq!(&bytes[0..2], &65i16.to_le_bytes());
    assert_eq!(&bytes[2..67], &key[..]);
    assert_eq!(&bytes[67..69], &(der.len() as i16).to_le_bytes());
    assert_eq!(bytes[bytes.len() - 1], 16);

    let read = ServerHello::deserialize(&bytes).unwrap();
    assert_eq!(read, answer);
    assert_eq!(read.public_key().unwrap().to_sec1_bytes(), key);
    assert_eq!(read.signature().unwrap().to_der(), der);
    assert_eq!(read.checksum(), Ok(Checksum::HmacSha256(16)));
    assert_eq!(read.checksum_size(), 16);
}

#[test]
fn server_hello_parses_what_it_received_only_on_demand() {
    let answer = ServerHello { public_key: vec![10, 20, 30], signature: vec![40, 50], checksum_size: 2 };
    let read = ServerHello::deserialize(&answer.serialize().unwrap()).unwrap();
    assert_eq!(read.public_key().err(), Some(Error::InvalidPublicKey));
    assert_eq!(read.signature().err(), Some(Error::InvalidSignature));
    assert_eq!(read.checksum(), Err(Error::InvalidChecksumConfig));
    let crc = ServerHello { public_key: vec![], signature: vec![], checksum_size: 1 };
    assert_eq!(crc.checksum(), Ok(Checksum::Crc16));
    let off = ServerHello { public_key: vec![], signature: vec![], checksum_size: 0 };
    assert_eq!(off.checksum(), Ok(Checksum::Disabled));
}

#[test]
fn client_ready_carries_the_key() {
    let key = key_bytes(4);
    let ready = ClientReady::new(PublicKey::from_sec1_bytes(&key).unwrap());
    assert_eq!(ready.public_key, key);
    let bytes = ready.serialize().unwrap();
    assert_eq!(bytes.len(), 67);
    let read = ClientReady::deserialize(&bytes).unwrap();
    assert_eq!(read.public_key().unwrap().to_sec1_bytes(), key);
    let bad = ClientReady { public_key: vec![1, 2, 3, 4, 5] };
    assert_eq!(bad.public_key().err(), Some(Error::InvalidPublicKey));
}
