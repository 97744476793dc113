//! A connection as the codec sees it: the bytes that have arrived and wait to be read as
//! messages, and the bytes of the messages that were written and wait to be sent. Moving
//! bytes between these two and a socket is left to the caller.

use crate::codec::{
    decode_message, encode_message, lemma_codec_roundtrip, Codec, MessageModel, TableModel,
};
use crate::error::Error;
use crate::field::append;
use crate::packet::{
    frame_of, spec_body_len, spec_parse, Framed, Packet, FRAME_HEADER_SIZE, MAX_MESSAGE_SIZE,
};
use std::marker::PhantomData;
use vstd::prelude::*;
use vstd::std_specs::convert::{IntoSpec, TryFromSpec};

verus! {

/// One end of a connection that speaks the union `C`, in length-prefixed frames.
///
/// What arrives is handed in by `receive` and read, one message per frame, by
/// `read_message`; what `write_message` writes is fetched by `take_outbound` and sent. A
/// message is decoded only when its whole frame has arrived.
#[derive(Debug)]
pub struct ContextedStream<C: Codec> {
    inbound: Vec<u8>,
    outbound: Vec<u8>,
    marker: PhantomData<C>,
}

/// The number of bytes that must still arrive before the frame at the start of `buf` is all
/// there: what is missing of the length field, or, once that is there, of the message. It is
/// 0 where a whole frame is there, or a length field that is invalid.
pub open spec fn spec_wanted(buf: Seq<u8>) -> nat {
    if buf.len() < FRAME_HEADER_SIZE {
        (FRAME_HEADER_SIZE - buf.len()) as nat
    } else {
        match spec_body_len(buf.take(FRAME_HEADER_SIZE as int)) {
            Err(_) => 0,
            Ok(len) => if buf.len() < FRAME_HEADER_SIZE + len {
                (FRAME_HEADER_SIZE + len - buf.len()) as nat
            } else {
                0
            },
        }
    }
}

/// What `write_message` does with a message of the union `table`, given what waits to be
/// sent: the outcome, and what waits to be sent afterwards.
pub open spec fn spec_write(table: TableModel, message: MessageModel, outbound: Seq<u8>) -> (
    Result<(), Error>,
    Seq<u8>,
) {
    match encode_message(table, message) {
        Err(e) => (Err(e), outbound),
        Ok(bytes) => if bytes.len() > MAX_MESSAGE_SIZE {
            (Err(Error::MessageTooLarge), outbound)
        } else {
            (Ok(()), outbound + frame_of(bytes))
        },
    }
}

impl<C: Codec> ContextedStream<C> {
    /// The bytes that have arrived and have not been read.
    pub closed spec fn inbound(&self) -> Seq<u8> {
        self.inbound@
    }

    /// The bytes that were written and have not been fetched.
    pub closed spec fn outbound(&self) -> Seq<u8> {
        self.outbound@
    }

    /// A connection on which nothing has arrived and nothing was written.
    pub fn new() -> (r: Self)
        ensures
            r.inbound() == Seq::<u8>::empty(),
            r.outbound() == Seq::<u8>::empty(),
    {
        ContextedStream { inbound: Vec::new(), outbound: Vec::new(), marker: PhantomData }
    }

    /// Takes in bytes that have arrived from the peer.
    pub fn receive(&mut self, bytes: &[u8])
        ensures
            final(self).inbound() == old(self).inbound() + bytes@,
            final(self).outbound() == old(self).outbound(),
    {
        append(&mut self.inbound, bytes);
    }

    /// Hands out the bytes that are to be sent to the peer; none are left behind.
    pub fn take_outbound(&mut self) -> (r: Vec<u8>)
        ensures
            r@ == old(self).outbound(),
            final(self).outbound() == Seq::<u8>::empty(),
            final(self).inbound() == old(self).inbound(),
    {
        let mut bytes: Vec<u8> = Vec::new();
        std::mem::swap(&mut bytes, &mut self.outbound);
        bytes
    }

    /// The number of bytes that must still arrive before `read_message` finds a whole frame:
    /// first what is missing of the two bytes of the length field, after that what is missing
    /// of the message.
    pub fn wanted(&self) -> (r: usize)
        ensures
            r == spec_wanted(self.inbound()),
            r == 0 <==> !(spec_parse(self.inbound()) is Incomplete),
    {
        let have: usize = self.inbound.len();
        if have < FRAME_HEADER_SIZE {
            return FRAME_HEADER_SIZE - have;
        }
        let header: [u8; 2] = [self.inbound[0], self.inbound[1]];
        assert(header@ =~= self.inbound@.take(2));
        match Packet::body_len(header) {
            Err(_) => 0,
            Ok(len) => if have < FRAME_HEADER_SIZE + len {
                FRAME_HEADER_SIZE + len - have
            } else {
                0
            },
        }
    }

    /// Writes a message: what `message` is as a member of the union is encoded, framed, and
    /// put behind the bytes that wait to be sent.
    ///
    /// Fails as the codec does if the message has no encoding, and with `MessageTooLarge` if
    /// the encoding is longer than a frame can carry. On failure nothing is written.
    pub fn write_message<M: Into<C>>(&mut self, message: M) -> (r: Result<(), Error>)
        ensures
            final(self).inbound() == old(self).inbound(),
            exists|member: C|
                #![trigger member.model()]
                (M::obeys_into_spec() ==> member == message.into_spec()) && (
                r,
                final(self).outbound(),
            ) == spec_write(C::union(), member.model(), old(self).outbound()),
    {
        let member: C = message.into();
        match member.encode() {
            Err(e) => Err(e),
            Ok(encoded) => match Packet::from_message(encoded) {
                Err(e) => Err(e),
                Ok(packet) => {
                    let frame: Vec<u8> = packet.to_bytes();
                    append(&mut self.outbound, frame.as_slice());
                    Ok(())
                },
            },
        }
    }

    /// Reads a message: takes the frame at the start of the bytes that have arrived, decodes
    /// the message it carries as a member of the union, and asks the union for a message of
    /// type `T`.
    ///
    /// Returns `None`, and takes nothing, while the frame is not all there. Fails with
    /// `InvalidFrameLength`, and takes nothing, if the length field says less than its own two
    /// bytes. Once a whole frame is there it is taken, whatever comes of it: the read fails as
    /// the codec does if the message cannot be decoded, and with `TypeMismatch` if it is not of
    /// type `T`.
    pub fn read_message<T: TryFrom<C>>(&mut self) -> (r: Result<Option<T>, Error>)
        ensures
            final(self).outbound() == old(self).outbound(),
            match spec_parse(old(self).inbound()) {
                Framed::Incomplete => r matches Ok(None) && final(self).inbound() == old(
                    self
                ).inbound(),
                Framed::Invalid => r matches Err(e) && e == Error::InvalidFrameLength
                    && final(self).inbound() == old(self).inbound(),
                Framed::Frame { body, size } => final(self).inbound() == old(self).inbound().skip(
                    size as int,
                ) && match decode_message(C::union(), body) {
                    Err(e) => r matches Err(x) && x == e,
                    Ok(message) => exists|member: C|
                        #![trigger member.model()]
                        member.model() == message && (r matches Ok(Some(_)) || (r matches Err(e)
                            && e == Error::TypeMismatch)) && (T::obeys_try_from_spec()
                            ==> match T::try_from_spec(member) {
                            Ok(wanted) => r matches Ok(Some(t)) && t == wanted,
                            Err(_) => r matches Err(e) && e == Error::TypeMismatch,
                        }),
                },
            },
    {
        let parsed = Packet::parse(self.inbound.as_slice());
        match parsed {
            Err(e) => Err(e),
            Ok(None) => Ok(None),
            Ok(Some((packet, size))) => {
                let rest: Vec<u8> = self.inbound.split_off(size);
                self.inbound = rest;
                match C::decode(packet.data()) {
                    Err(e) => Err(e),
                    Ok(member) => match T::try_from(member) {
                        Ok(message) => Ok(Some(message)),
                        Err(_) => Err(Error::TypeMismatch),
                    },
                }
            },
        }
    }
}

/// What one side writes, the other reads: the bytes that `write_message` puts out for a
/// message are, at the other end and whatever follows them, one whole frame, and the message
/// that this frame carries is the message that was written.
///
/// Left out are the messages that the codec does not read back as what they are: one with
/// a byte string above the size limit, and a catch-all message with an opcode that a message
/// type of the union claims.
pub proof fn lemma_written_is_read(table: TableModel, message: MessageModel, rest: Seq<u8>)
    requires
        spec_write(table, message, Seq::empty()).0.is_ok(),
        table.reads_back(message),
    ensures
        spec_parse(spec_write(table, message, Seq::empty()).1 + rest) == (Framed::Frame {
            body: encode_message(table, message)->Ok_0,
            size: spec_write(table, message, Seq::empty()).1.len(),
        }),
        decode_message(table, encode_message(table, message)->Ok_0) == Ok::<MessageModel, Error>(
            message,
        ),
        spec_wanted(spec_write(table, message, Seq::empty()).1 + rest) == 0,
{
    let bytes = encode_message(table, message)->Ok_0;
    Packet::lemma_frame_roundtrip(bytes, rest);
    lemma_codec_roundtrip(table, message);
    assert(Seq::<u8>::empty() + frame_of(bytes) =~= frame_of(bytes));
}

} // verus!
