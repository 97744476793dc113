//! Framing: a frame is a two-byte length, which counts itself, and the bytes of one encoded
//! message behind it. The framing layer knows nothing of what the bytes mean.

use crate::error::Error;
use crate::field::append;
use crate::message::Checksum;
use crate::wire::{lemma_int_roundtrip, IntKind};
use vstd::prelude::*;
use vstd::slice::slice_to_vec;

verus! {

/// The number of bytes of the length field of a frame.
pub const FRAME_HEADER_SIZE: usize = 2;

/// The length of the longest message that a frame can carry: with the two bytes of the
/// length field it makes 32767, the greatest length that the field can say.
pub const MAX_MESSAGE_SIZE: usize = 32765;

/// How the messages of a session are encrypted. Only the absence of encryption is defined.
#[derive(Clone, Copy, Debug, PartialEq, Eq, Structural)]
pub enum Encryption {
    /// No encryption.
    Disabled,
}

/// A message as the codec sees it first: the opcode and the bytes behind it, not yet read.
#[derive(Clone, Debug, PartialEq, Eq)]
pub struct Payload {
    /// The opcode, as a signed number.
    pub opcode: i8,
    /// The bytes behind the opcode byte.
    pub data: Vec<u8>,
}

impl Payload {
    /// The bytes of the message: the opcode byte, and the body behind it.
    pub open spec fn bytes(&self) -> Seq<u8> {
        IntKind::I8.encoding(self.opcode as int) + self.data@
    }
}

/// One frame: the bytes of one message and the value of the length field that goes before
/// them.
#[derive(Debug)]
pub struct Packet {
    size: i16,
    data: Vec<u8>,
}

/// What the framing layer finds at the start of the bytes received so far.
pub enum Framed {
    /// The bytes end before the frame does; nothing can be said yet.
    Incomplete,
    /// The length field says less than its own size.
    Invalid,
    /// A whole frame, which carries `body` and takes `size` bytes.
    Frame { body: Seq<u8>, size: nat },
}

/// The bytes of the frame that carries `message`: the length of the message and of the
/// length field, as a little-endian signed 16-bit number, and the message.
pub open spec fn frame_of(message: Seq<u8>) -> Seq<u8> {
    IntKind::I16.encoding(message.len() + FRAME_HEADER_SIZE) + message
}

/// The number of message bytes that a frame with the length field `header` carries, or
/// `InvalidFrameLength` where the field says less than its own size.
pub open spec fn spec_body_len(header: Seq<u8>) -> Result<nat, Error> {
    if IntKind::I16.decoding(header) < FRAME_HEADER_SIZE {
        Err(Error::InvalidFrameLength)
    } else {
        Ok((IntKind::I16.decoding(header) - FRAME_HEADER_SIZE) as nat)
    }
}

/// What stands at the start of `buf`.
pub open spec fn spec_parse(buf: Seq<u8>) -> Framed {
    if buf.len() < FRAME_HEADER_SIZE {
        Framed::Incomplete
    } else {
        match spec_body_len(buf.take(FRAME_HEADER_SIZE as int)) {
            Err(_) => Framed::Invalid,
            Ok(len) => if buf.len() < FRAME_HEADER_SIZE + len {
                Framed::Incomplete
            } else {
                Framed::Frame {
                    body: buf.subrange(FRAME_HEADER_SIZE as int, FRAME_HEADER_SIZE + len),
                    size: (FRAME_HEADER_SIZE + len) as nat,
                }
            },
        }
    }
}

impl View for Packet {
    type V = Seq<u8>;

    /// The bytes of the message that the frame carries.
    closed spec fn view(&self) -> Seq<u8> {
        self.data@
    }
}

impl Packet {
    #[verifier::type_invariant]
    spec fn well_formed(&self) -> bool {
        self.size == self.data@.len() + FRAME_HEADER_SIZE
    }

    /// The frame that carries the message `payload`: its opcode byte and its body. The
    /// encryption and checksum stages are named but do nothing.
    ///
    /// Fails with `MessageTooLarge` if opcode and body are more than `MAX_MESSAGE_SIZE` bytes.
    pub fn new(payload: Payload, encryption: Encryption, checksum: Checksum) -> (r: Result<
        Packet,
        Error,
    >)
        ensures
            match r {
                Ok(packet) => packet@ == payload.bytes() && 1 + payload.data@.len()
                    <= MAX_MESSAGE_SIZE,
                Err(e) => e == Error::MessageTooLarge && 1 + payload.data@.len()
                    > MAX_MESSAGE_SIZE,
            },
    {
        proof {
            lemma_int_roundtrip(IntKind::I8, payload.opcode as int);
        }
        let mut data: Vec<u8> = Vec::new();
        IntKind::I8.encode(payload.opcode as i128, &mut data);
        append(&mut data, payload.data.as_slice());
        Packet::from_message(data)
    }

    /// The frame that carries the encoded message `message`.
    ///
    /// Fails with `MessageTooLarge` if the message is longer than `MAX_MESSAGE_SIZE` bytes.
    pub fn from_message(message: Vec<u8>) -> (r: Result<Packet, Error>)
        ensures
            match r {
                Ok(packet) => packet@ == message@ && message@.len() <= MAX_MESSAGE_SIZE,
                Err(e) => e == Error::MessageTooLarge && message@.len() > MAX_MESSAGE_SIZE,
            },
    {
        if message.len() > MAX_MESSAGE_SIZE {
            return Err(Error::MessageTooLarge);
        }
        let size: i16 = (message.len() + FRAME_HEADER_SIZE) as i16;
        Ok(Packet { size, data: message })
    }

    /// The message that the frame carries, as opcode and body. The encryption and checksum
    /// stages are named but do nothing.
    ///
    /// Fails with `EmptyMessage` if the frame carries no byte at all.
    pub fn payload(&self, encryption: Encryption, checksum: Checksum) -> (r: Result<Payload, Error>)
        ensures
            match r {
                Ok(payload) => self@.len() > 0 && payload.opcode == IntKind::I8.decoding(
                    self@.take(1),
                ) && payload.data@ == self@.skip(1),
                Err(e) => e == Error::EmptyMessage && self@.len() == 0,
            },
    {
        if self.data.len() == 0 {
            return Err(Error::EmptyMessage);
        }
        let opcode: i128 = IntKind::I8.decode(self.data.as_slice(), 0);
        let body: Vec<u8> = slice_to_vec(
            vstd::slice::slice_subrange(self.data.as_slice(), 1, self.data.len()),
        );
        proof {
            assert(self.data@.subrange(0, 1) =~= self.data@.take(1));
            assert(self.data@.subrange(1, self.data@.len() as int) =~= self.data@.skip(1));
        }
        Ok(Payload { opcode: opcode as i8, data: body })
    }

    /// The value of the length field: the number of bytes of the frame, length field
    /// included.
    pub fn size(&self) -> (r: i16)
        ensures
            r == self@.len() + FRAME_HEADER_SIZE,
    {
        proof {
            use_type_invariant(self);
        }
        self.size
    }

    /// The bytes of the message that the frame carries.
    pub fn data(&self) -> (r: &[u8])
        ensures
            r@ == self@,
    {
        self.data.as_slice()
    }

    /// The message that the frame carries.
    pub fn into_data(self) -> (r: Vec<u8>)
        ensures
            r@ == self@,
    {
        self.data
    }

    /// The bytes of the frame as they go over the wire: the length field, and the message.
    pub fn to_bytes(&self) -> (r: Vec<u8>)
        ensures
            r@ == frame_of(self@),
            r@.len() == self@.len() + FRAME_HEADER_SIZE,
    {
        proof {
            use_type_invariant(self);
            lemma_int_roundtrip(IntKind::I16, self.size as int);
        }
        let mut bytes: Vec<u8> = Vec::new();
        IntKind::I16.encode(self.size as i128, &mut bytes);
        append(&mut bytes, self.data.as_slice());
        bytes
    }

    /// The number of message bytes that follow the length field `header`.
    ///
    /// Fails with `InvalidFrameLength` if the field, read as a little-endian signed 16-bit
    /// number, says less than its own two bytes.
    pub fn body_len(header: [u8; 2]) -> (r: Result<usize, Error>)
        ensures
            match spec_body_len(header@) {
                Ok(len) => r == Ok::<usize, Error>(len as usize) && len <= MAX_MESSAGE_SIZE,
                Err(e) => r == Err::<usize, Error>(e),
            },
    {
        let length: i128 = IntKind::I16.decode(header.as_slice(), 0);
        proof {
            assert(header@.subrange(0, 2) =~= header@);
        }
        if length < FRAME_HEADER_SIZE as i128 {
            Err(Error::InvalidFrameLength)
        } else {
            Ok((length - FRAME_HEADER_SIZE as i128) as usize)
        }
    }

    /// The frame at the start of `buf`, if it is all there, and the number of bytes it takes.
    ///
    /// Returns `None` while `buf` ends before the frame does. Fails with
    /// `InvalidFrameLength` if the length field says less than its own two bytes.
    pub fn parse(buf: &[u8]) -> (r: Result<Option<(Packet, usize)>, Error>)
        ensures
            match spec_parse(buf@) {
                Framed::Incomplete => r matches Ok(None),
                Framed::Invalid => r matches Err(e) && e == Error::InvalidFrameLength,
                Framed::Frame { body, size } => r matches Ok(Some((packet, n))) && packet@ == body
                    && n == size,
            },
    {
        if buf.len() < FRAME_HEADER_SIZE {
            return Ok(None);
        }
        let length: i128 = IntKind::I16.decode(buf, 0);
        proof {
            assert(buf@.subrange(0, 2) =~= buf@.take(2));
        }
        if length < FRAME_HEADER_SIZE as i128 {
            return Err(Error::InvalidFrameLength);
        }
        let size: usize = length as usize;
        if buf.len() < size {
            return Ok(None);
        }
        let body: Vec<u8> = slice_to_vec(vstd::slice::slice_subrange(buf, FRAME_HEADER_SIZE, size));
        Ok(Some((Packet { size: length as i16, data: body }, size)))
    }

    /// Frame boundary and round trip: a message has a frame exactly if it is at most
    /// `MAX_MESSAGE_SIZE` bytes long, and the frame that was written is the frame that is
    /// read, whatever follows it.
    pub proof fn lemma_frame_roundtrip(message: Seq<u8>, rest: Seq<u8>)
        requires
            message.len() <= MAX_MESSAGE_SIZE,
        ensures
            frame_of(message).len() == message.len() + FRAME_HEADER_SIZE,
            spec_parse(frame_of(message) + rest) == (Framed::Frame {
                body: message,
                size: (message.len() + FRAME_HEADER_SIZE) as nat,
            }),
    {
        let size = message.len() + FRAME_HEADER_SIZE;
        let header = IntKind::I16.encoding(size as int);
        lemma_int_roundtrip(IntKind::I16, size as int);
        let buf = frame_of(message) + rest;
        assert(buf.take(FRAME_HEADER_SIZE as int) =~= header);
        assert(buf.subrange(FRAME_HEADER_SIZE as int, size as int) =~= message);
    }

    /// The largest frame: a message of `MAX_MESSAGE_SIZE` bytes goes behind the length 32767,
    /// the greatest that the length field can say, which is written as the bytes `ff 7f`.
    pub proof fn lemma_largest_frame(message: Seq<u8>)
        requires
            message.len() == MAX_MESSAGE_SIZE,
        ensures
            frame_of(message) == seq![0xffu8, 0x7fu8] + message,
            frame_of(message).len() == 32767,
    {
        reveal_with_fuel(crate::wire::le_bytes, 3);
        assert(IntKind::I16.encoding(32767) =~= seq![0xffu8, 0x7fu8]);
    }

    /// A frame of which a byte is missing is not read: the reader waits for more.
    pub proof fn lemma_frame_incomplete(message: Seq<u8>, n: int)
        requires
            message.len() <= MAX_MESSAGE_SIZE,
            0 <= n < message.len() + FRAME_HEADER_SIZE,
        ensures
            spec_parse(frame_of(message).take(n)) == Framed::Incomplete,
    {
        let size = message.len() + FRAME_HEADER_SIZE;
        let header = IntKind::I16.encoding(size as int);
        lemma_int_roundtrip(IntKind::I16, size as int);
        if n >= FRAME_HEADER_SIZE {
            assert(frame_of(message).take(n).take(FRAME_HEADER_SIZE as int) =~= header);
        }
    }
}

} // verus!
