//! The handshake: three messages in a fixed order. The client greets, the server answers
//! with its key, its signature and the checksum of the session, and the client ends with its
//! own key. A session says which message is due next, and refuses any other.

use crate::codec::Login;
use crate::error::Error;
use crate::keys::{der_signature, sec1_public_key, PublicKey, Signature, MAX_DER_LEN};
use crate::message::{Checksum, ClientHello, ClientReady, ServerHello};
use vstd::prelude::*;

verus! {

/// The two constants that client and server have agreed on before they meet. They hide the
/// fields of the client's greeting from a casual eye, and are no secret.
#[derive(Clone, Copy, Debug, PartialEq, Eq, Structural)]
pub struct Context {
    /// The constant that hides the integrity value.
    pub primary_obfuscation_value: i64,
    /// The constant that, with the integrity value, hides the time.
    pub secondary_obfuscation_value: i64,
}

impl Default for Context {
    /// The constants of the public login servers.
    fn default() -> (r: Context)
        ensures
            r.primary_obfuscation_value == 3214621489648854472,
            r.secondary_obfuscation_value == -4214651440992349575,
    {
        Context {
            primary_obfuscation_value: 3214621489648854472,
            secondary_obfuscation_value: -4214651440992349575,
        }
    }
}

/// The side of the handshake that a session is on.
#[derive(Clone, Copy, Debug, PartialEq, Eq, Structural)]
pub enum Role {
    Client,
    Server,
}

/// How far a handshake has come.
#[derive(Clone, Copy, Debug, PartialEq, Eq, Structural)]
pub enum State {
    /// Nothing was sent or received.
    Start,
    /// The client has sent its greeting and waits for the server's answer.
    AwaitingServerHello,
    /// The server has answered the greeting and waits for the client's key.
    AwaitingClientReady,
    /// The three messages were exchanged; both keys are known.
    Complete,
}

/// One side's record of a handshake: what was agreed on before, how far the exchange has
/// come, and what it has brought so far.
///
/// A session lives as long as its connection. It is made when the connection opens, and each
/// message that is sent or received moves it on. A message that is not due ends it: the
/// functions that move a session on take it and hand back its successor, so that after a
/// failure there is no session left to go on with.
#[derive(Debug)]
pub struct Handshake {
    role: Role,
    state: State,
    context: Context,
    hello: Option<ClientHello>,
    checksum: Option<Checksum>,
    client_key: Option<PublicKey>,
    server_key: Option<PublicKey>,
    server_signature: Option<Signature>,
}

/// What a session is, mathematically.
pub struct Session {
    /// The side that the session is on.
    pub role: Role,
    /// How far the handshake has come.
    pub state: State,
    /// The constants that the session was made with.
    pub context: Context,
    /// The client's greeting, once it was sent or received.
    pub hello: Option<ClientHello>,
    /// The checksum of the session, once the server has named it.
    pub checksum: Option<Checksum>,
    /// The SEC1 bytes of the client's public key, once known.
    pub client_key: Option<Seq<u8>>,
    /// The SEC1 bytes of the server's public key, once known.
    pub server_key: Option<Seq<u8>>,
    /// The DER bytes of the server's signature over its key, once known.
    pub server_signature: Option<Seq<u8>>,
}

impl Session {
    /// What holds of every session: each side knows its own part from the start, a client
    /// never waits for its own last message nor a server for its own answer, and what a state
    /// says was exchanged is there. A complete session holds both keys, the server's
    /// signature and a valid checksum.
    pub open spec fn well_formed(self) -> bool {
        &&& self.checksum matches Some(c) ==> c.is_valid()
        &&& match self.role {
            Role::Client => {
                &&& self.client_key.is_some()
                &&& self.state != State::AwaitingClientReady
                &&& self.hello.is_some() == (self.state != State::Start)
                &&& self.server_key.is_some() == (self.state == State::Complete)
                &&& self.server_signature.is_some() == (self.state == State::Complete)
                &&& self.checksum.is_some() == (self.state == State::Complete)
            },
            Role::Server => {
                &&& self.server_key.is_some()
                &&& self.server_signature.is_some()
                &&& self.checksum.is_some()
                &&& self.state != State::AwaitingServerHello
                &&& self.hello.is_some() == (self.state != State::Start)
                &&& self.client_key.is_some() == (self.state == State::Complete)
            },
        }
    }
}

/// Why the client refuses the server's answer, if it does: the first of its three parts, in
/// the order in which they stand in the message, that is not well formed.
pub open spec fn answer_failure(answer: ServerHello) -> Option<Error> {
    if !sec1_public_key(answer.public_key@) {
        Some(Error::InvalidPublicKey)
    } else if !(answer.signature@.len() <= MAX_DER_LEN && der_signature(answer.signature@)) {
        Some(Error::InvalidSignature)
    } else if Checksum::spec_from_code(answer.checksum_size).is_err() {
        Some(Error::InvalidChecksumConfig)
    } else {
        None
    }
}

/// The bytes of a key that may not be there yet.
pub open spec fn key_bytes(key: Option<PublicKey>) -> Option<Seq<u8>> {
    match key {
        Some(k) => Some(k@),
        None => None,
    }
}

/// The bytes of a signature that may not be there yet.
pub open spec fn signature_bytes(signature: Option<Signature>) -> Option<Seq<u8>> {
    match signature {
        Some(s) => Some(s@),
        None => None,
    }
}

impl View for Handshake {
    type V = Session;

    closed spec fn view(&self) -> Session {
        Session {
            role: self.role,
            state: self.state,
            context: self.context,
            hello: self.hello,
            checksum: self.checksum,
            client_key: key_bytes(self.client_key),
            server_key: key_bytes(self.server_key),
            server_signature: signature_bytes(self.server_signature),
        }
    }
}

impl Handshake {
    #[verifier::type_invariant]
    spec fn well_formed(&self) -> bool {
        self@.well_formed()
    }

    /// A client's session at the start, with the key that it will present.
    pub fn client(context: Context, public_key: PublicKey) -> (r: Handshake)
        ensures
            r@ == (Session {
                role: Role::Client,
                state: State::Start,
                context,
                hello: None,
                checksum: None,
                client_key: Some(public_key@),
                server_key: None,
                server_signature: None,
            }),
            r@.well_formed(),
    {
        Handshake {
            role: Role::Client,
            state: State::Start,
            context,
            hello: None,
            checksum: None,
            client_key: Some(public_key),
            server_key: None,
            server_signature: None,
        }
    }

    /// A server's session at the start, with the key and the signature that it will present
    /// and the checksum that it will ask for.
    ///
    /// Fails with `InvalidChecksumConfig` if the checksum is an HMAC cut to less than 4 or
    /// more than 32 bytes.
    pub fn server(
        context: Context,
        public_key: PublicKey,
        signature: Signature,
        checksum: Checksum,
    ) -> (r: Result<Handshake, Error>)
        ensures
            match r {
                Ok(session) => checksum.is_valid() && session@ == (Session {
                    role: Role::Server,
                    state: State::Start,
                    context,
                    hello: None,
                    checksum: Some(checksum),
                    client_key: None,
                    server_key: Some(public_key@),
                    server_signature: Some(signature@),
                }) && session@.well_formed(),
                Err(e) => e == Error::InvalidChecksumConfig && !checksum.is_valid(),
            },
    {
        if !checksum.is_valid() {
            return Err(Error::InvalidChecksumConfig);
        }
        Ok(
            Handshake {
                role: Role::Server,
                state: State::Start,
                context,
                hello: None,
                checksum: Some(checksum),
                client_key: None,
                server_key: Some(public_key),
                server_signature: Some(signature),
            },
        )
    }

    /// The side that the session is on.
    pub fn role(&self) -> (r: Role)
        ensures
            r == self@.role,
    {
        self.role
    }

    /// How far the handshake has come.
    pub fn state(&self) -> (r: State)
        ensures
            r == self@.state,
            self@.well_formed(),
    {
        proof {
            use_type_invariant(self);
        }
        self.state
    }

    /// The constants that the session was made with.
    pub fn context(&self) -> (r: Context)
        ensures
            r == self@.context,
    {
        self.context
    }

    /// The client's greeting, once it was sent or received.
    pub fn hello(&self) -> (r: Option<ClientHello>)
        ensures
            r == self@.hello,
    {
        self.hello
    }

    /// The checksum of the session, once the server has named it.
    pub fn checksum(&self) -> (r: Option<Checksum>)
        ensures
            r == self@.checksum,
    {
        self.checksum
    }

    /// The other side's public key, once it was received: the server's for a client, the
    /// client's for a server. A complete session has it.
    pub fn peer_public_key(&self) -> (r: Option<PublicKey>)
        ensures
            key_bytes(r) == match self@.role {
                Role::Client => self@.server_key,
                Role::Server => self@.client_key,
            },
            self@.state == State::Complete ==> r.is_some(),
    {
        proof {
            use_type_invariant(self);
        }
        let key = match self.role {
            Role::Client => &self.server_key,
            Role::Server => &self.client_key,
        };
        match key {
            Some(k) => Some(k.duplicate()),
            None => None,
        }
    }

    /// The server's signature over its key, once known. It is carried, not verified.
    pub fn server_signature(&self) -> (r: Option<Signature>)
        ensures
            signature_bytes(r) == self@.server_signature,
    {
        match &self.server_signature {
            Some(s) => Some(s.duplicate()),
            None => None,
        }
    }

    /// The client opens the handshake: the greeting for the integrity value `integrity`,
    /// sent `timestamp_millis` milliseconds after the Unix epoch, and the session that waits
    /// for the server's answer.
    ///
    /// Fails with `UnexpectedMessage` unless the session is a client's at the start, and
    /// with `TimestampOutOfRange` if the time does not fit the signed 64-bit field.
    pub fn start(self, integrity: i64, timestamp_millis: u64) -> (r: Result<
        (Handshake, ClientHello),
        Error,
    >)
        ensures
            self@.well_formed(),
            (if self@.role != Role::Client || self@.state != State::Start {
                r matches Err(e) && e == Error::UnexpectedMessage
            } else if timestamp_millis > i64::MAX {
                r matches Err(e) && e == Error::TimestampOutOfRange
            } else {
                r matches Ok((next, hello)) && hello == ClientHello::spec_new(
                    integrity,
                    timestamp_millis as i64,
                    self@.context.primary_obfuscation_value,
                    self@.context.secondary_obfuscation_value,
                ) && next@ == (Session {
                    state: State::AwaitingServerHello,
                    hello: Some(hello),
                    ..self@
                }) && next@.well_formed()
            }),
    {
        proof {
            use_type_invariant(&self);
        }
        match (self.role, self.state) {
            (Role::Client, State::Start) => {},
            _ => {
                return Err(Error::UnexpectedMessage);
            },
        }
        let hello = match ClientHello::new(
            integrity,
            timestamp_millis,
            self.context.primary_obfuscation_value,
            self.context.secondary_obfuscation_value,
        ) {
            Ok(hello) => hello,
            Err(e) => {
                return Err(e);
            },
        };
        let next = Handshake {
            role: self.role,
            state: State::AwaitingServerHello,
            context: self.context,
            hello: Some(hello),
            checksum: self.checksum,
            client_key: self.client_key,
            server_key: self.server_key,
            server_signature: self.server_signature,
        };
        Ok((next, hello))
    }

    /// The client opens the handshake with an integrity value drawn at random: the greeting,
    /// sent `timestamp_millis` milliseconds after the Unix epoch, and the session that waits
    /// for the server's answer.
    ///
    /// Fails as `start` does. Whatever integrity value was drawn, the outcome is that of
    /// `start` for it, and the time is read back from the greeting.
    pub fn start_fresh(self, timestamp_millis: u64) -> (r: Result<(Handshake, ClientHello), Error>)
        ensures
            self@.well_formed(),
            (if self@.role != Role::Client || self@.state != State::Start {
                r matches Err(e) && e == Error::UnexpectedMessage
            } else if timestamp_millis > i64::MAX {
                r matches Err(e) && e == Error::TimestampOutOfRange
            } else {
                r matches Ok((next, hello)) && hello == ClientHello::spec_new(
                    hello.spec_integrity(self@.context.primary_obfuscation_value),
                    timestamp_millis as i64,
                    self@.context.primary_obfuscation_value,
                    self@.context.secondary_obfuscation_value,
                ) && hello.spec_timestamp_millis(
                    self@.context.primary_obfuscation_value,
                    self@.context.secondary_obfuscation_value,
                ) == timestamp_millis && next@ == (Session {
                    state: State::AwaitingServerHello,
                    hello: Some(hello),
                    ..self@
                }) && next@.well_formed()
            }),
    {
        proof {
            use_type_invariant(&self);
        }
        match (self.role, self.state) {
            (Role::Client, State::Start) => {},
            _ => {
                return Err(Error::UnexpectedMessage);
            },
        }
        let drawn = match ClientHello::generate(
            timestamp_millis,
            self.context.primary_obfuscation_value,
            self.context.secondary_obfuscation_value,
        ) {
            Ok(hello) => hello,
            Err(e) => {
                return Err(e);
            },
        };
        let integrity: i64 = drawn.integrity(self.context.primary_obfuscation_value);
        self.start(integrity, timestamp_millis)
    }

    /// A message has arrived: the session that follows, and the message to send in answer,
    /// if one is due.
    ///
    /// - A server at the start takes the client's greeting and answers with its key, its
    ///   signature and its checksum; it then waits for the client's key.
    /// - A client that waits for the server's answer takes it, and answers with its own key;
    ///   its handshake is complete. It refuses the answer with `InvalidPublicKey`,
    ///   `InvalidSignature` or `InvalidChecksumConfig` if the key, the signature or the
    ///   checksum byte is not well formed.
    /// - A server that waits for the client's key takes it; its handshake is complete. It
    ///   refuses the message with `InvalidPublicKey` if the key is not well formed.
    /// - Any other message, in any state, is refused with `UnexpectedMessage`: a greeting
    ///   after the first, the client's key before the server has answered, and everything
    ///   once the handshake is complete.
    pub fn receive(self, message: Login) -> (r: Result<(Handshake, Option<Login>), Error>)
        ensures
            self@.well_formed(),
            match (self@.role, self@.state, message) {
                (Role::Server, State::Start, Login::ClientHello(hello)) => r matches Ok(
                    (next, Some(Login::ServerHello(answer))),
                ) && next@ == (Session {
                    state: State::AwaitingClientReady,
                    hello: Some(hello),
                    ..self@
                }) && next@.well_formed() && Some(answer.public_key@) == self@.server_key
                    && Some(answer.signature@) == self@.server_signature
                    && answer.checksum_size == self@.checksum->Some_0.spec_code(),
                (
                    Role::Client,
                    State::AwaitingServerHello,
                    Login::ServerHello(answer),
                ) => match answer_failure(answer) {
                    Some(e) => r matches Err(x) && x == e,
                    None => r matches Ok((next, Some(Login::ClientReady(ready)))) && next@ == (
                    Session {
                        state: State::Complete,
                        checksum: Some(Checksum::spec_from_code(answer.checksum_size)->Ok_0),
                        server_key: Some(answer.public_key@),
                        server_signature: Some(answer.signature@),
                        ..self@
                    }) && next@.well_formed() && Some(ready.public_key@) == self@.client_key,
                },
                (
                    Role::Server,
                    State::AwaitingClientReady,
                    Login::ClientReady(ready),
                ) => if sec1_public_key(ready.public_key@) {
                    r matches Ok((next, None)) && next@ == (Session {
                        state: State::Complete,
                        client_key: Some(ready.public_key@),
                        ..self@
                    }) && next@.well_formed()
                } else {
                    r matches Err(e) && e == Error::InvalidPublicKey
                },
                _ => r matches Err(e) && e == Error::UnexpectedMessage,
            },
    {
        proof {
            use_type_invariant(&self);
        }
        match (self.role, self.state, message) {
            (Role::Server, State::Start, Login::ClientHello(hello)) => {
                let (key, signature, checksum) = match (
                    &self.server_key,
                    &self.server_signature,
                    self.checksum,
                ) {
                    (Some(key), Some(signature), Some(checksum)) => (
                        key.duplicate(),
                        signature.duplicate(),
                        checksum,
                    ),
                    // A server's session holds its key, signature and checksum from the start.
                    _ => {
                        return Err(Error::UnexpectedMessage);
                    },
                };
                let answer = ServerHello::new(key, signature, checksum);
                let next = Handshake {
                    role: self.role,
                    state: State::AwaitingClientReady,
                    context: self.context,
                    hello: Some(hello),
                    checksum: self.checksum,
                    client_key: self.client_key,
                    server_key: self.server_key,
                    server_signature: self.server_signature,
                };
                Ok((next, Some(Login::ServerHello(answer))))
            },
            (Role::Client, State::AwaitingServerHello, Login::ServerHello(answer)) => {
                let server_key = match answer.public_key() {
                    Ok(key) => key,
                    Err(e) => {
                        return Err(e);
                    },
                };
                let server_signature = match answer.signature() {
                    Ok(signature) => signature,
                    Err(e) => {
                        return Err(e);
                    },
                };
                let checksum = match answer.checksum() {
                    Ok(checksum) => checksum,
                    Err(e) => {
                        return Err(e);
                    },
                };
                let ready = match &self.client_key {
                    Some(key) => ClientReady::new(key.duplicate()),
                    // A client's session holds its key from the start.
                    None => {
                        return Err(Error::UnexpectedMessage);
                    },
                };
                let next = Handshake {
                    role: self.role,
                    state: State::Complete,
                    context: self.context,
                    hello: self.hello,
                    checksum: Some(checksum),
                    client_key: self.client_key,
                    server_key: Some(server_key),
                    server_signature: Some(server_signature),
                };
                Ok((next, Some(Login::ClientReady(ready))))
            },
            (Role::Server, State::AwaitingClientReady, Login::ClientReady(ready)) => {
                let client_key = match ready.public_key() {
                    Ok(key) => key,
                    Err(e) => {
                        return Err(e);
                    },
                };
                let next = Handshake {
                    role: self.role,
                    state: State::Complete,
                    context: self.context,
                    hello: self.hello,
                    checksum: self.checksum,
                    client_key: Some(client_key),
                    server_key: self.server_key,
                    server_signature: self.server_signature,
                };
                Ok((next, None))
            },
            _ => Err(Error::UnexpectedMessage),
        }
    }
}

} // verus!
