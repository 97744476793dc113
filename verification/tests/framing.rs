use pokemmo::codec::{Codec, Login, WithUnknown};
use pokemmo::context::ContextedStream;
use pokemmo::error::Error;
use pokemmo::message::{Checksum, ClientHello, ClientReady, ServerHello};
use pokemmo::packet::{Encryption, Packet, Payload, FRAME_HEADER_SIZE, MAX_MESSAGE_SIZE};

#[test]
fn a_frame_is_its_length_and_the_message() {
    let packet = Packet::from_message(vec![0x02, 5, 0, 1, 2, 3, 4, 5]).unwrap();
    assert_eq!(packet.size(), 10);
    assert_eq!(packet.data(), &[0x02, 5, 0, 1, 2, 3, 4, 5]);
    assert_eq!(packet.to_bytes(), vec![10, 0, 0x02, 5, 0, 1, 2, 3, 4, 5]);
    assert_eq!(packet.into_data(), vec![0x02, 5, 0, 1, 2, 3, 4, 5]);
    assert_eq!(FRAME_HEADER_SIZE, 2);
}

#[test]
fn the_longest_message_that_a_frame_carries() {
    assert_eq!(MAX_MESSAGE_SIZE, 32765);
    let packet = Packet::from_message(vec![0xaa; 32765]).unwrap();
    assert_eq!(packet.size(), 32767);
    let bytes = packet.to_bytes();
    assert_eq!(bytes.len(), 32767);
    assert_eq!(&bytes[0..2], &32767i16.to_le_bytes());
    assert_eq!(&bytes[0..2], &[0xff, 0x7f]);
    assert!(bytes[2..].iter().all(|b| *b == 0xaa));

    assert_eq!(Packet::from_message(vec![0xaa; 32766]).err(), Some(Error::MessageTooLarge));
    assert_eq!(Packet::from_message(vec![0; 100_000]).err(), Some(Error::MessageTooLarge));
}

#[test]
fn an_empty_frame_can_be_written_but_holds_no_message() {
    let packet = Packet::from_message(vec![]).unwrap();
    assert_eq!(packet.size(), 2);
    assert_eq!(packet.to_bytes(), vec![2, 0]);
    assert_eq!(
        packet.payload(Encryption::Disabled, Checksum::Disabled).err(),
        Some(Error::EmptyMessage)
    );
    assert_eq!(Login::decode(packet.data()), Err(Error::EmptyMessage));
}

#[test]
fn a_packet_is_made_from_opcode_and_body_and_taken_apart_again() {
    let payload = Payload { opcode: -2, data: vec![1, 2, 3] };
    let packet = Packet::new(payload.clone(), Encryption::Disabled, Checksum::Disabled).unwrap();
    assert_eq!(packet.size(), 6);
    assert_eq!(packet.data(), &[0xfe, 1, 2, 3]);
    assert_eq!(packet.to_bytes(), vec![6, 0, 0xfe, 1, 2, 3]);
    assert_eq!(packet.payload(Encryption::Disabled, Checksum::Crc16), Ok(payload));

    let bare = Payload { opcode: 0x7f, data: vec![] };
    let packet = Packet::new(bare.clone(), Encryption::Disabled, Checksum::Disabled).unwrap();
    assert_eq!(packet.to_bytes(), vec![3, 0, 0x7f]);
    assert_eq!(packet.payload(Encryption::Disabled, Checksum::Disabled), Ok(bare));

    let largest = Payload { opcode: 1, data: vec![0; 32764] };
    assert_eq!(
        Packet::new(largest, Encryption::Disabled, Checksum::Disabled).unwrap().size(),
        32767
    );
    let too_large = Payload { opcode: 1, data: vec![0; 32765] };
    assert_eq!(
        Packet::new(too_large, Encryption::Disabled, Checksum::Disabled).err(),
        Some(Error::MessageTooLarge)
    );
}

#[test]
fn the_length_field_says_how_much_follows() {
    assert_eq!(Packet::body_len([10, 0]), Ok(8));
    assert_eq!(Packet::body_len([2, 0]), Ok(0));
    assert_eq!(Packet::body_len([0xff, 0x7f]), Ok(32765));
    assert_eq!(Packet::body_len([0x00, 0x01]), Ok(254));
    assert_eq!(Packet::body_len([1, 0]), Err(Error::InvalidFrameLength));
    assert_eq!(Packet::body_len([0, 0]), Err(Error::InvalidFrameLength));
    assert_eq!(Packet::body_len([0xff, 0xff]), Err(Error::InvalidFrameLength));
    assert_eq!(Packet::body_len([0x00, 0x80]), Err(Error::InvalidFrameLength));
}

#[test]
fn a_frame_is_read_when_it_is_all_there() {
    let frame = vec![6u8, 0, 0xfe, 1, 2, 3, 0x55, 0x66];
    for n in 0..6 {
        assert!(matches!(Packet::parse(&frame[..n]), Ok(None)));
    }
    for n in 6..=frame.len() {
        let (packet, used) = Packet::parse(&frame[..n]).unwrap().unwrap();
        assert_eq!(used, 6);
        assert_eq!(packet.data(), &[0xfe, 1, 2, 3]);
        assert_eq!(packet.size(), 6);
    }
    assert_eq!(Packet::parse(&[1, 0, 9, 9]).err(), Some(Error::InvalidFrameLength));
    assert_eq!(Packet::parse(&[0xfe, 0xff]).err(), Some(Error::InvalidFrameLength));
    let (empty, used) = Packet::parse(&[2, 0, 7]).unwrap().unwrap();
    assert_eq!(used, 2);
    assert_eq!(empty.data(), &[] as &[u8]);
}

#[test]
fn written_frames_are_read_back() {
    for len in [0usize, 1, 2, 255, 256, 4096, 32765] {
        let message: Vec<u8> = (0..len).map(|i| (i % 251) as u8).collect();
        let mut bytes = Packet::from_message(message.clone()).unwrap().to_bytes();
        bytes.extend_from_slice(&[1, 2, 3]);
        let (packet, used) = Packet::parse(&bytes).unwrap().unwrap();
        assert_eq!(used, len + 2);
        assert_eq!(packet.into_data(), message);
    }
}

#[test]
fn messages_cross_a_connection() {
    let hello = ClientHello { obfuscated_integrity: 11, obfuscated_timestamp: 22 };
    let mut client: ContextedStream<Login> = ContextedStream::new();
    let mut server: ContextedStream<Login> = ContextedStream::new();
    assert_eq!(client.write_message(hello), Ok(()));
    let sent = client.take_outbound();
    assert_eq!(sent.len(), 2 + 1 + 16);
    assert_eq!(&sent[0..3], &[19, 0, 0x00]);
    assert_eq!(client.take_outbound(), Vec::<u8>::new());

    assert_eq!(server.wanted(), 2);
    server.receive(&sent[..1]);
    assert_eq!(server.wanted(), 1);
    assert_eq!(server.read_message::<ClientHello>(), Ok(None));
    server.receive(&sent[1..2]);
    assert_eq!(server.wanted(), 17);
    assert_eq!(server.read_message::<ClientHello>(), Ok(None));
    server.receive(&sent[2..18]);
    assert_eq!(server.wanted(), 1);
    assert_eq!(server.read_message::<ClientHello>(), Ok(None));
    server.receive(&sent[18..]);
    assert_eq!(server.wanted(), 0);
    assert_eq!(server.read_message::<ClientHello>(), Ok(Some(hello)));
    assert_eq!(server.wanted(), 2);
    assert_eq!(server.read_message::<ClientHello>(), Ok(None));
}

#[test]
fn frames_that_arrive_together_are_read_one_by_one() {
    let hello = ClientHello { obfuscated_integrity: 1, obfuscated_timestamp: 2 };
    let answer = ServerHello { public_key: vec![3; 65], signature: vec![4; 71], checksum_size: 0 };
    let ready = ClientReady { public_key: vec![5; 65] };
    let mut a: ContextedStream<Login> = ContextedStream::new();
    a.write_message(hello).unwrap();
    a.write_message(answer.clone()).unwrap();
    a.write_message(Login::ClientReady(ready.clone())).unwrap();
    let sent = a.take_outbound();

    let mut b: ContextedStream<Login> = ContextedStream::new();
    b.receive(&sent);
    assert_eq!(b.read_message::<ClientHello>(), Ok(Some(hello)));
    assert_eq!(b.read_message::<Login>(), Ok(Some(Login::ServerHello(answer))));
    assert_eq!(b.read_message::<ClientReady>(), Ok(Some(ready)));
    assert_eq!(b.read_message::<ClientReady>(), Ok(None));
}

#[test]
fn a_message_of_another_type_is_a_mismatch_and_the_frame_is_gone() {
    let mut a: ContextedStream<Login> = ContextedStream::new();
    a.write_message(ClientReady { public_key: vec![1] }).unwrap();
    a.write_message(ClientHello { obfuscated_integrity: 1, obfuscated_timestamp: 2 }).unwrap();
    let mut b: ContextedStream<Login> = ContextedStream::new();
    b.receive(&a.take_outbound());
    assert_eq!(b.read_message::<ServerHello>(), Err(Error::TypeMismatch));
    assert_eq!(
        b.read_message::<ClientHello>(),
        Ok(Some(ClientHello { obfuscated_integrity: 1, obfuscated_timestamp: 2 }))
    );
}

#[test]
fn protocol_failures_are_told_apart() {
    // a length field below its own size: nothing is taken
    let mut s: ContextedStream<Login> = ContextedStream::new();
    s.receive(&[1, 0, 0x00]);
    assert_eq!(s.wanted(), 0);
    assert_eq!(s.read_message::<ClientHello>(), Err(Error::InvalidFrameLength));
    assert_eq!(s.read_message::<ClientHello>(), Err(Error::InvalidFrameLength));

    // an empty frame, an unknown opcode, a truncated body: the frame is taken, the next is read
    let mut s: ContextedStream<Login> = ContextedStream::new();
    s.receive(&[2, 0]);
    s.receive(&[3, 0, 0x7f]);
    s.receive(&[4, 0, 0x02, 9]);
    s.receive(&[5, 0, 0x02, 0, 0]);
    assert_eq!(s.read_message::<Login>(), Err(Error::EmptyMessage));
    assert_eq!(s.read_message::<Login>(), Err(Error::UnknownOpcode(0x7f)));
    assert_eq!(s.read_message::<Login>(), Err(Error::Truncated { field: "public_key" }));
    assert_eq!(
        s.read_message::<Login>(),
        Ok(Some(Login::ClientReady(ClientReady { public_key: vec![] })))
    );
    assert_eq!(s.read_message::<Login>(), Ok(None));
}

#[test]
fn a_message_too_large_for_a_frame_is_not_written() {
    let mut s: ContextedStream<Login> = ContextedStream::new();
    // 1 opcode byte + 2 prefix bytes + 32762 key bytes = 32765: the largest that fits
    assert_eq!(s.write_message(ClientReady { public_key: vec![0; 32762] }), Ok(()));
    let sent = s.take_outbound();
    assert_eq!(sent.len(), 32767);
    assert_eq!(&sent[0..2], &[0xff, 0x7f]);
    assert_eq!(
        s.write_message(ClientReady { public_key: vec![0; 32763] }),
        Err(Error::MessageTooLarge)
    );
    assert_eq!(
        s.write_message(ClientReady { public_key: vec![0; 32768] }),
        Err(Error::LengthOverflow { field: "public_key" })
    );
    assert_eq!(s.take_outbound(), Vec::<u8>::new());
}

#[test]
fn a_connection_with_a_catch_all_skips_what_it_does_not_know() {
    let mut s: ContextedStream<WithUnknown<Login>> = ContextedStream::new();
    s.receive(&[4, 0, 0x7f, 1]);
    s.receive(&[5, 0, 0x02, 0, 0]);
    assert_eq!(
        s.read_message::<WithUnknown<Login>>(),
        Ok(Some(WithUnknown::Unknown { opcode: 0x7f, data: vec![1] }))
    );
    assert_eq!(
        s.read_message::<WithUnknown<Login>>(),
        Ok(Some(WithUnknown::Known(Login::ClientReady(ClientReady { public_key: vec![] }))))
    );
    assert_eq!(s.write_message(Login::ClientReady(ClientReady { public_key: vec![9] })), Ok(()));
    assert_eq!(s.take_outbound(), vec![6, 0, 0x02, 1, 0, 9]);
}
