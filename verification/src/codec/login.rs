use super::{
    decode_message, encode_message, find_schema, lemma_codec_roundtrip, Codec, MessageModel,
    MessageTypeModel, OpcodeTable, TableModel,
};
use crate::error::Error;
use crate::field::append;
use crate::message::{ClientHello, ClientReady, Message, ServerHello};
use crate::wire::{lemma_int_roundtrip, IntKind};
use vstd::prelude::*;
use vstd::slice::slice_subrange;
use vstd::std_specs::convert::{FromSpec, FromSpecImpl, TryFromSpec, TryFromSpecImpl};

verus! {

/// The opcode of `ClientHello`.
pub const CLIENT_HELLO: i8 = 0x00;

/// The opcode of `ServerHello`.
pub const SERVER_HELLO: i8 = 0x01;

/// The opcode of `ClientReady`.
pub const CLIENT_READY: i8 = 0x02;

/// The union of the three messages of the handshake. It has no catch-all: a message with
/// another opcode is refused.
#[derive(Clone, Debug, PartialEq, Eq)]
pub enum Login {
    ClientReady(ClientReady),
    ServerHello(ServerHello),
    ClientHello(ClientHello),
}

impl Login {
    /// The message types of the handshake, each under its opcode.
    pub open spec fn types() -> Seq<MessageTypeModel> {
        seq![
            MessageTypeModel { opcode: CLIENT_HELLO, schema: ClientHello::spec_schema() },
            MessageTypeModel { opcode: SERVER_HELLO, schema: ServerHello::spec_schema() },
            MessageTypeModel { opcode: CLIENT_READY, schema: ClientReady::spec_schema() },
        ]
    }

    /// The opcode of the message.
    pub open spec fn spec_opcode(&self) -> i8 {
        match self {
            Login::ClientHello(_) => CLIENT_HELLO,
            Login::ServerHello(_) => SERVER_HELLO,
            Login::ClientReady(_) => CLIENT_READY,
        }
    }

    /// The opcode of the message.
    #[verifier::when_used_as_spec(spec_opcode)]
    pub fn opcode(&self) -> (r: i8)
        ensures
            r == self.spec_opcode(),
    {
        match self {
            Login::ClientHello(_) => CLIENT_HELLO,
            Login::ServerHello(_) => SERVER_HELLO,
            Login::ClientReady(_) => CLIENT_READY,
        }
    }

    /// The table of the handshake's message types as a union made at run time, with or
    /// without a catch-all member.
    pub fn table(catch_all: bool) -> (r: OpcodeTable)
        ensures
            r@ == (TableModel { types: Self::types(), catch_all }),
    {
        let mut table = OpcodeTable::new(catch_all);
        proof {
            reveal_with_fuel(find_schema, 4);
        }
        let hello = table.register(CLIENT_HELLO, ClientHello::schema());
        let answer = table.register(SERVER_HELLO, ServerHello::schema());
        let ready = table.register(CLIENT_READY, ClientReady::schema());
        assert(hello.is_ok() && answer.is_ok() && ready.is_ok());
        assert(table@.types =~= Self::types());
        table
    }

    /// What is found in the table of the handshake: the three opcodes, and no other.
    pub proof fn lemma_types(opcode: i8)
        ensures
            find_schema(Self::types(), opcode) == (if opcode == CLIENT_HELLO {
                Some(ClientHello::spec_schema())
            } else if opcode == SERVER_HELLO {
                Some(ServerHello::spec_schema())
            } else if opcode == CLIENT_READY {
                Some(ClientReady::spec_schema())
            } else {
                None
            }),
            (TableModel { types: Self::types(), catch_all: false }).well_formed(),
    {
        reveal_with_fuel(find_schema, 4);
        let types = Self::types();
        assert(types.drop_last().drop_last().drop_last() =~= Seq::<MessageTypeModel>::empty());
    }
}

impl Codec for Login {
    open spec fn union() -> TableModel {
        TableModel { types: Self::types(), catch_all: false }
    }

    open spec fn model(&self) -> MessageModel {
        match self {
            Login::ClientHello(message) => MessageModel::Known {
                opcode: CLIENT_HELLO,
                fields: message.fields(),
            },
            Login::ServerHello(message) => MessageModel::Known {
                opcode: SERVER_HELLO,
                fields: message.fields(),
            },
            Login::ClientReady(message) => MessageModel::Known {
                opcode: CLIENT_READY,
                fields: message.fields(),
            },
        }
    }

    proof fn lemma_member(&self) {
    }

    fn encode(&self) -> (r: Result<Vec<u8>, Error>) {
        proof {
            Self::lemma_types(self.spec_opcode());
            lemma_int_roundtrip(IntKind::I8, self.spec_opcode() as int);
        }
        let body = match self {
            Login::ClientHello(message) => message.serialize(),
            Login::ServerHello(message) => message.serialize(),
            Login::ClientReady(message) => message.serialize(),
        };
        match body {
            Err(e) => Err(e),
            Ok(body) => {
                let mut bytes: Vec<u8> = Vec::new();
                IntKind::I8.encode(self.opcode() as i128, &mut bytes);
                append(&mut bytes, body.as_slice());
                Ok(bytes)
            },
        }
    }

    fn decode(data: &[u8]) -> (r: Result<Self, Error>) {
        if data.len() == 0 {
            return Err(Error::EmptyMessage);
        }
        let opcode: i8 = IntKind::I8.decode(data, 0) as i8;
        let body: &[u8] = slice_subrange(data, 1, data.len());
        proof {
            assert(data@.subrange(0, 1) =~= data@.take(1));
            assert(data@.subrange(1, data@.len() as int) =~= data@.skip(1));
            Self::lemma_types(opcode);
        }
        if opcode == CLIENT_HELLO {
            match ClientHello::deserialize(body) {
                Ok(message) => Ok(Login::ClientHello(message)),
                Err(e) => Err(e),
            }
        } else if opcode == SERVER_HELLO {
            match ServerHello::deserialize(body) {
                Ok(message) => Ok(Login::ServerHello(message)),
                Err(e) => Err(e),
            }
        } else if opcode == CLIENT_READY {
            match ClientReady::deserialize(body) {
                Ok(message) => Ok(Login::ClientReady(message)),
                Err(e) => Err(e),
            }
        } else {
            Err(Error::UnknownOpcode(data[0]))
        }
    }
}

impl From<ClientHello> for Login {
    fn from(message: ClientHello) -> (r: Login) {
        Login::ClientHello(message)
    }
}

impl FromSpecImpl<ClientHello> for Login {
    open spec fn obeys_from_spec() -> bool {
        true
    }

    open spec fn from_spec(message: ClientHello) -> Login {
        Login::ClientHello(message)
    }
}

impl From<ServerHello> for Login {
    fn from(message: ServerHello) -> (r: Login) {
        Login::ServerHello(message)
    }
}

impl FromSpecImpl<ServerHello> for Login {
    open spec fn obeys_from_spec() -> bool {
        true
    }

    open spec fn from_spec(message: ServerHello) -> Login {
        Login::ServerHello(message)
    }
}

impl From<ClientReady> for Login {
    fn from(message: ClientReady) -> (r: Login) {
        Login::ClientReady(message)
    }
}

impl FromSpecImpl<ClientReady> for Login {
    open spec fn obeys_from_spec() -> bool {
        true
    }

    open spec fn from_spec(message: ClientReady) -> Login {
        Login::ClientReady(message)
    }
}

impl TryFrom<Login> for ClientHello {
    type Error = Error;

    fn try_from(value: Login) -> (r: Result<ClientHello, Error>) {
        match value {
            Login::ClientHello(message) => Ok(message),
            _ => Err(Error::TypeMismatch),
        }
    }
}

impl TryFromSpecImpl<Login> for ClientHello {
    open spec fn obeys_try_from_spec() -> bool {
        true
    }

    open spec fn try_from_spec(value: Login) -> Result<ClientHello, Error> {
        match value {
            Login::ClientHello(message) => Ok(message),
            _ => Err(Error::TypeMismatch),
        }
    }
}

impl TryFrom<Login> for ServerHello {
    type Error = Error;

    fn try_from(value: Login) -> (r: Result<ServerHello, Error>) {
        match value {
            Login::ServerHello(message) => Ok(message),
            _ => Err(Error::TypeMismatch),
        }
    }
}

impl TryFromSpecImpl<Login> for ServerHello {
    open spec fn obeys_try_from_spec() -> bool {
        true
    }

    open spec fn try_from_spec(value: Login) -> Result<ServerHello, Error> {
        match value {
            Login::ServerHello(message) => Ok(message),
            _ => Err(Error::TypeMismatch),
        }
    }
}

impl TryFrom<Login> for ClientReady {
    type Error = Error;

    fn try_from(value: Login) -> (r: Result<ClientReady, Error>) {
        match value {
            Login::ClientReady(message) => Ok(message),
            _ => Err(Error::TypeMismatch),
        }
    }
}

impl TryFromSpecImpl<Login> for ClientReady {
    open spec fn obeys_try_from_spec() -> bool {
        true
    }

    open spec fn try_from_spec(value: Login) -> Result<ClientReady, Error> {
        match value {
            Login::ClientReady(message) => Ok(message),
            _ => Err(Error::TypeMismatch),
        }
    }
}

/// Round trip: every message of the handshake that can be written is read back as what it
/// is. No key or signature that fits its prefix is above the size limit, so none is left out.
pub proof fn lemma_login_roundtrip(message: Login)
    requires
        encode_message(Login::union(), message.model()).is_ok(),
    ensures
        decode_message(Login::union(), encode_message(Login::union(), message.model())->Ok_0)
            == Ok::<MessageModel, Error>(message.model()),
{
    Login::lemma_types(message.spec_opcode());
    match message {
        Login::ClientHello(hello) => {
            hello.lemma_serialized();
        },
        Login::ServerHello(answer) => {
            answer.lemma_serialized();
        },
        Login::ClientReady(ready) => {
            ready.lemma_serialized();
        },
    }
    lemma_codec_roundtrip(Login::union(), message.model());
}

/// A message of the handshake is what it is as a value of the table: two messages that are
/// the same value of the table are of the same type and hold the same fields.
pub proof fn lemma_model_determines(a: Login, b: Login)
    requires
        a.model() == b.model(),
    ensures
        match (a, b) {
            (Login::ClientHello(x), Login::ClientHello(y)) => x == y,
            (Login::ServerHello(x), Login::ServerHello(y)) => x.public_key@ == y.public_key@
                && x.signature@ == y.signature@ && x.checksum_size == y.checksum_size,
            (Login::ClientReady(x), Login::ClientReady(y)) => x.public_key@ == y.public_key@,
            _ => false,
        },
{
    match (a, b) {
        (Login::ClientHello(x), Login::ClientHello(y)) => {
            ClientHello::lemma_fields_determine(x, y);
        },
        (Login::ServerHello(x), Login::ServerHello(y)) => {
            assert(x.fields()[0] == y.fields()[0]);
            assert(x.fields()[1] == y.fields()[1]);
            assert(x.fields()[2] == y.fields()[2]);
        },
        (Login::ClientReady(x), Login::ClientReady(y)) => {
            assert(x.fields()[0] == y.fields()[0]);
        },
        _ => {},
    }
}

/// A message of the handshake can be written unless a key or a signature in it is longer
/// than 32767 bytes; what is written is one byte more than the fields take.
pub proof fn lemma_login_encoded(message: Login)
    ensures
        encode_message(Login::union(), message.model()).is_ok() <==> match message {
            Login::ClientHello(hello) => true,
            Login::ServerHello(answer) => answer.public_key@.len() <= 0x7fff
                && answer.signature@.len() <= 0x7fff,
            Login::ClientReady(ready) => ready.public_key@.len() <= 0x7fff,
        },
        encode_message(Login::union(), message.model()) matches Ok(bytes) ==> bytes.len()
            == 1 + match message {
            Login::ClientHello(hello) => 16,
            Login::ServerHello(answer) => 2 + answer.public_key@.len() + 2
                + answer.signature@.len() + 1,
            Login::ClientReady(ready) => 2 + ready.public_key@.len(),
        },
{
    Login::lemma_types(message.spec_opcode());
    lemma_int_roundtrip(IntKind::I8, message.spec_opcode() as int);
    match message {
        Login::ClientHello(hello) => {
            hello.lemma_serialized();
        },
        Login::ServerHello(answer) => {
            answer.lemma_serialized();
        },
        Login::ClientReady(ready) => {
            ready.lemma_serialized();
        },
    }
}

/// Wrapping a message into the union and unwrapping it again gives the message back; asking
/// the union for a message of another type fails with `TypeMismatch`.
pub proof fn lemma_unwrap_wrap(hello: ClientHello, answer: ServerHello, ready: ClientReady)
    ensures
        <ClientHello as TryFromSpec<Login>>::try_from_spec(
            <Login as FromSpec<ClientHello>>::from_spec(hello),
        ) == Ok::<ClientHello, Error>(hello),
        <ServerHello as TryFromSpec<Login>>::try_from_spec(
            <Login as FromSpec<ServerHello>>::from_spec(answer),
        ) == Ok::<ServerHello, Error>(answer),
        <ClientReady as TryFromSpec<Login>>::try_from_spec(
            <Login as FromSpec<ClientReady>>::from_spec(ready),
        ) == Ok::<ClientReady, Error>(ready),
        forall|message: Login|
            !(message is ClientHello) ==> #[trigger] <ClientHello as TryFromSpec<
                Login,
            >>::try_from_spec(message) == Err::<ClientHello, Error>(Error::TypeMismatch),
        forall|message: Login|
            !(message is ServerHello) ==> #[trigger] <ServerHello as TryFromSpec<
                Login,
            >>::try_from_spec(message) == Err::<ServerHello, Error>(Error::TypeMismatch),
        forall|message: Login|
            !(message is ClientReady) ==> #[trigger] <ClientReady as TryFromSpec<
                Login,
            >>::try_from_spec(message) == Err::<ClientReady, Error>(Error::TypeMismatch),
{
}

} // verus!
