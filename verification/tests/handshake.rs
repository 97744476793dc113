use p256::ecdsa::signature::Signer;
use pokemmo::codec::Login;
use pokemmo::context::ContextedStream;
use pokemmo::error::Error;
use pokemmo::handshake::{Context, Handshake, Role, State};
use pokemmo::keys::{PublicKey, Signature};
use pokemmo::message::{Checksum, ClientHello, ClientReady, ServerHello};

fn secret(seed: u8) -> p256::SecretKey {
    p256::SecretKey::from_slice(&[seed; 32]).unwrap()
}

fn key(seed: u8) -> PublicKey {
    PublicKey::from_sec1_bytes(&secret(seed).public_key().to_sec1_bytes()).unwrap()
}

fn signature(seed: u8) -> Signature {
    let signing_key = p256::ecdsa::SigningKey::from(&secret(seed));
    let signed: p256::ecdsa::Signature = signing_key.sign(&key(seed).to_sec1_bytes());
    Signature::from_der(signed.to_der().as_bytes()).unwrap()
}

fn client() -> Handshake {
    Handshake::client(Context::default(), key(1))
}

fn server() -> Handshake {
    Handshake::server(Context::default(), key(2), signature(2), Checksum::HmacSha256(32)).unwrap()
}

fn hello() -> ClientHello {
    let context = Context::default();
    ClientHello::new(
        99,
        1_700_000_000_000,
        context.primary_obfuscation_value,
        context.secondary_obfuscation_value,
    )
    .unwrap()
}

fn answer() -> ServerHello {
    ServerHello::new(key(2), signature(2), Checksum::Crc16)
}

#[test]
fn the_handshake_runs_from_start_to_complete() {
    let context = Context::default();
    let client = client();
    let server = server();
    assert_eq!(client.role(), Role::Client);
    assert_eq!(server.role(), Role::Server);
    assert_eq!(client.state(), State::Start);
    assert_eq!(server.state(), State::Start);
    assert_eq!(client.context(), context);
    assert_eq!(server.checksum(), Some(Checksum::HmacSha256(32)));
    assert_eq!(client.checksum(), None);
    assert!(client.peer_public_key().is_none());
    assert!(client.server_signature().is_none());
    assert_eq!(server.server_signature().unwrap().to_der(), signature(2).to_der());

    // client -> server: ClientHello
    let (client, greeting) = client.start(12345, 1_700_000_000_000).unwrap();
    assert_eq!(client.state(), State::AwaitingServerHello);
    assert_eq!(client.hello(), Some(greeting));
    assert_eq!(greeting.integrity(context.primary_obfuscation_value), 12345);

    // server -> client: ServerHello
    let (server, reply) = server.receive(Login::ClientHello(greeting)).unwrap();
    assert_eq!(server.state(), State::AwaitingClientReady);
    assert_eq!(server.hello(), Some(greeting));
    assert!(server.peer_public_key().is_none());
    let reply = reply.unwrap();
    match &reply {
        Login::ServerHello(answer) => {
            assert_eq!(answer.public_key, key(2).to_sec1_bytes());
            assert_eq!(answer.signature, signature(2).to_der());
            assert_eq!(answer.checksum_size, 32);
        }
        other => panic!("the server answered with {:?}", other),
    }

    // client -> server: ClientReady
    let (client, last) = client.receive(reply).unwrap();
    assert_eq!(client.state(), State::Complete);
    assert_eq!(client.checksum(), Some(Checksum::HmacSha256(32)));
    assert_eq!(client.peer_public_key().unwrap().to_sec1_bytes(), key(2).to_sec1_bytes());
    assert_eq!(client.server_signature().unwrap().to_der(), signature(2).to_der());
    let last = last.unwrap();
    assert_eq!(last, Login::ClientReady(ClientReady::new(key(1))));

    let (server, nothing) = server.receive(last).unwrap();
    assert_eq!(nothing, None);
    assert_eq!(server.state(), State::Complete);
    assert_eq!(server.peer_public_key().unwrap().to_sec1_bytes(), key(1).to_sec1_bytes());
    assert_eq!(
        server
            .hello()
            .unwrap()
            .timestamp(context.primary_obfuscation_value, context.secondary_obfuscation_value),
        Ok(1_700_000_000_000)
    );
}

#[test]
fn the_handshake_runs_over_framed_connections() {
    let mut client_end: ContextedStream<Login> = ContextedStream::new();
    let mut server_end: ContextedStream<Login> = ContextedStream::new();

    let (client, greeting) = client().start(7, 1_000).unwrap();
    client_end.write_message(greeting).unwrap();
    server_end.receive(&client_end.take_outbound());

    let received: Login = server_end.read_message().unwrap().unwrap();
    let (server, reply) = server().receive(received).unwrap();
    server_end.write_message(reply.unwrap()).unwrap();
    client_end.receive(&server_end.take_outbound());

    let received: Login = client_end.read_message().unwrap().unwrap();
    let (client, last) = client.receive(received).unwrap();
    client_end.write_message(last.unwrap()).unwrap();
    server_end.receive(&client_end.take_outbound());

    let received: ClientReady = server_end.read_message().unwrap().unwrap();
    let (server, nothing) = server.receive(received.into()).unwrap();
    assert_eq!(nothing, None);
    assert_eq!(client.state(), State::Complete);
    assert_eq!(server.state(), State::Complete);
    assert_eq!(
        client.peer_public_key().unwrap().to_sec1_bytes(),
        key(2).to_sec1_bytes()
    );
    assert_eq!(
        server.peer_public_key().unwrap().to_sec1_bytes(),
        key(1).to_sec1_bytes()
    );
}

#[test]
fn only_a_client_at_the_start_greets() {
    assert_eq!(server().start(1, 2).err(), Some(Error::UnexpectedMessage));
    let (waiting, _) = client().start(1, 2).unwrap();
    assert_eq!(waiting.start(1, 2).err(), Some(Error::UnexpectedMessage));
    assert_eq!(client().start(1, u64::MAX).err(), Some(Error::TimestampOutOfRange));
}

#[test]
fn a_fresh_greeting_draws_its_integrity_value() {
    let context = Context::default();
    let (session, greeting) = client().start_fresh(1_700_000_000_000).unwrap();
    assert_eq!(session.state(), State::AwaitingServerHello);
    assert_eq!(session.hello(), Some(greeting));
    assert_eq!(
        greeting.timestamp(context.primary_obfuscation_value, context.secondary_obfuscation_value),
        Ok(1_700_000_000_000)
    );
    assert_eq!(server().start_fresh(1).err(), Some(Error::UnexpectedMessage));
    assert_eq!(client().start_fresh(u64::MAX).err(), Some(Error::TimestampOutOfRange));
    let draws: Vec<i64> = (0..8)
        .map(|_| {
            client().start_fresh(5).unwrap().1.integrity(context.primary_obfuscation_value)
        })
        .collect();
    assert!(draws.iter().any(|d| *d != draws[0]));
}

#[test]
fn a_second_greeting_is_refused() {
    let (server, _) = server().receive(Login::ClientHello(hello())).unwrap();
    assert_eq!(
        server.receive(Login::ClientHello(hello())).err(),
        Some(Error::UnexpectedMessage)
    );
}

#[test]
fn the_clients_key_is_refused_before_the_server_has_answered() {
    let ready = Login::ClientReady(ClientReady::new(key(1)));
    assert_eq!(server().receive(ready.clone()).err(), Some(Error::UnexpectedMessage));
    assert_eq!(client().receive(ready.clone()).err(), Some(Error::UnexpectedMessage));
    let (waiting, _) = client().start(1, 2).unwrap();
    assert_eq!(waiting.receive(ready).err(), Some(Error::UnexpectedMessage));
}

#[test]
fn the_servers_answer_is_refused_unless_the_client_waits_for_it() {
    assert_eq!(
        client().receive(Login::ServerHello(answer())).err(),
        Some(Error::UnexpectedMessage)
    );
    assert_eq!(
        server().receive(Login::ServerHello(answer())).err(),
        Some(Error::UnexpectedMessage)
    );
    let (waiting, _) = server().receive(Login::ClientHello(hello())).unwrap();
    assert_eq!(
        waiting.receive(Login::ServerHello(answer())).err(),
        Some(Error::UnexpectedMessage)
    );
    let (waiting, _) = client().start(1, 2).unwrap();
    assert_eq!(
        waiting.receive(Login::ClientHello(hello())).err(),
        Some(Error::UnexpectedMessage)
    );
}

#[test]
fn a_complete_handshake_takes_no_more_messages() {
    let (client, _) = client().start(1, 2).unwrap();
    let (client, _) = client.receive(Login::ServerHello(answer())).unwrap();
    assert_eq!(client.state(), State::Complete);
    assert_eq!(client.checksum(), Some(Checksum::Crc16));
    assert_eq!(
        client.receive(Login::ServerHello(answer())).err(),
        Some(Error::UnexpectedMessage)
    );

    let (server, _) = server().receive(Login::ClientHello(hello())).unwrap();
    let (server, _) = server.receive(Login::ClientReady(ClientReady::new(key(1)))).unwrap();
    assert_eq!(server.state(), State::Complete);
    assert_eq!(
        server.receive(Login::ClientReady(ClientReady::new(key(1)))).err(),
        Some(Error::UnexpectedMessage)
    );
}

#[test]
fn the_client_refuses_an_answer_that_is_not_well_formed() {
    let waiting = || client().start(1, 2).unwrap().0;
    let good = answer();

    let mut bad_key = good.clone();
    bad_key.public_key = vec![10, 20, 30];
    bad_key.signature = vec![40, 50];
    bad_key.checksum_size = 2;
    assert_eq!(
        waiting().receive(Login::ServerHello(bad_key)).err(),
        Some(Error::InvalidPublicKey)
    );

    let mut bad_signature = good.clone();
    bad_signature.signature = vec![40, 50];
    bad_signature.checksum_size = 2;
    assert_eq!(
        waiting().receive(Login::ServerHello(bad_signature)).err(),
        Some(Error::InvalidSignature)
    );

    for byte in [2i8, 3, 33, -1] {
        let mut bad_checksum = good.clone();
        bad_checksum.checksum_size = byte;
        assert_eq!(
            waiting().receive(Login::ServerHello(bad_checksum)).err(),
            Some(Error::InvalidChecksumConfig)
        );
    }

    let mut off = good.clone();
    off.checksum_size = 0;
    let (done, _) = waiting().receive(Login::ServerHello(off)).unwrap();
    assert_eq!(done.checksum(), Some(Checksum::Disabled));
}

#[test]
fn the_server_refuses_a_key_that_is_not_well_formed() {
    let (waiting, _) = server().receive(Login::ClientHello(hello())).unwrap();
    assert_eq!(
        waiting
            .receive(Login::ClientReady(ClientReady { public_key: vec![1, 2, 3, 4, 5] }))
            .err(),
        Some(Error::InvalidPublicKey)
    );
}

#[test]
fn a_server_asks_for_a_checksum_that_a_byte_names() {
    for size in [3i8, 33, 0, -4] {
        assert_eq!(
            Handshake::server(Context::default(), key(2), signature(2), Checksum::HmacSha256(size))
                .err(),
            Some(Error::InvalidChecksumConfig)
        );
    }
    for checksum in [Checksum::Disabled, Checksum::Crc16, Checksum::HmacSha256(4)] {
        let session =
            Handshake::server(Context::default(), key(2), signature(2), checksum).unwrap();
        assert_eq!(session.checksum(), Some(checksum));
    }
}

#[test]
fn sessions_keep_the_constants_they_were_made_with() {
    let context = Context { primary_obfuscation_value: 5, secondary_obfuscation_value: -6 };
    let (session, greeting) = Handshake::client(context, key(1)).start(100, 200).unwrap();
    assert_eq!(session.context(), context);
    assert_eq!(greeting.obfuscated_integrity, 100 ^ 5);
    assert_eq!(greeting.obfuscated_timestamp, 200 ^ 100 ^ -6);
    assert_eq!(greeting.integrity(5), 100);
    assert_eq!(greeting.timestamp(5, -6), Ok(200));
}
