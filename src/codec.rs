//! Fixed-layout binary framing of payloads.
//!
//! Byte 0 is the tag (`0` for a handshake, `1` for a message); a message's
//! UTF-8 text follows from byte 1 on, with no length field: the number of
//! bytes received is the length of the datagram.
use vstd::prelude::*;
use vstd::utf8::*;
use vstd::slice::*;

verus! {

broadcast use vstd::utf8::group_utf8_lib;

/// Size of the fixed buffer that an encoded payload is written into.
pub const PACKET_SIZE: usize = 2048;

/// Largest number of text bytes that a message carries.
pub const MAX_TEXT_LEN: usize = 2047;

/// Size of the buffer that datagrams are received into.
pub const RECEIVE_BUFFER_SIZE: usize = 2096;

/// Tag byte of the handshake payload.
pub const CONNECT_TAG: u8 = 0;

/// Tag byte of the message payload.
pub const MESSAGE_TAG: u8 = 1;

/// A message of the protocol.
#[derive(Debug)]
pub enum Payload {
    /// The handshake a client sends to register with a server.
    Connect,
    /// A text message.
    Message { text: String },
}

/// The logical content of a payload: its kind and, for a message, its text.
pub ghost enum PayloadModel {
    Connect,
    Message(Seq<char>),
}

/// Why a datagram could not be decoded.
#[derive(Debug, Clone, Copy, PartialEq, Eq, Structural)]
pub enum DecodeError {
    /// The datagram holds no byte at all.
    Truncated,
    /// The tag byte names no payload kind; it is carried along.
    UnknownPayloadKind(u8),
    /// The body of a message is not valid UTF-8.
    InvalidUtf8,
}

impl View for Payload {
    type V = PayloadModel;

    open spec fn view(&self) -> PayloadModel {
        match self {
            Payload::Connect => PayloadModel::Connect,
            Payload::Message { text } => PayloadModel::Message(text@),
        }
    }
}

/// The text bytes a message carries: its UTF-8 encoding, cut at `MAX_TEXT_LEN`.
pub open spec fn carried_text(text: Seq<char>) -> Seq<u8> {
    let b = encode_utf8(text);
    if b.len() <= MAX_TEXT_LEN {
        b
    } else {
        b.take(MAX_TEXT_LEN as int)
    }
}

/// The bytes of a payload that go on the wire: the tag, then the text of a message.
pub open spec fn wire_bytes(p: PayloadModel) -> Seq<u8> {
    match p {
        PayloadModel::Connect => seq![CONNECT_TAG],
        PayloadModel::Message(text) => seq![MESSAGE_TAG] + carried_text(text),
    }
}

/// A payload fits in a packet when its text needs no cut.
pub open spec fn fits_in_packet(p: PayloadModel) -> bool {
    match p {
        PayloadModel::Connect => true,
        PayloadModel::Message(text) => encode_utf8(text).len() <= MAX_TEXT_LEN,
    }
}

/// What a received datagram decodes to.
pub open spec fn decode_spec(bytes: Seq<u8>) -> Result<PayloadModel, DecodeError> {
    if bytes.len() == 0 {
        Err(DecodeError::Truncated)
    } else if bytes[0] == CONNECT_TAG {
        Ok(PayloadModel::Connect)
    } else if bytes[0] == MESSAGE_TAG {
        let body = bytes.drop_first();
        if valid_utf8(body) {
            Ok(PayloadModel::Message(decode_utf8(body)))
        } else {
            Err(DecodeError::InvalidUtf8)
        }
    } else {
        Err(DecodeError::UnknownPayloadKind(bytes[0]))
    }
}

/// A payload's wire bytes followed by zeros up to `PACKET_SIZE`.
pub open spec fn padded(bytes: Seq<u8>) -> Seq<u8> {
    bytes + Seq::new((PACKET_SIZE - bytes.len()) as nat, |i: int| 0u8)
}

/// The logical content of a decode result.
pub open spec fn decoded_view(r: Result<Payload, DecodeError>) -> Result<PayloadModel, DecodeError> {
    match r {
        Ok(p) => Ok(p@),
        Err(e) => Err(e),
    }
}

/// Relies on `String::from_utf8`: it accepts exactly the byte sequences that
/// are valid UTF-8, and the string it returns holds the characters they encode.
#[verifier::external_body]
fn text_from_utf8(bytes: &[u8]) -> (r: Option<String>)
    ensures
        r is Some <==> valid_utf8(bytes@),
        r matches Some(s) ==> s@ == decode_utf8(bytes@),
{
    String::from_utf8(bytes.to_vec()).ok()
}

/// Decoding the bytes that encoding a payload sends gives that payload back,
/// whenever its text fits in a packet; the padding of the fixed buffer is
/// never part of what is sent.
pub proof fn lemma_round_trip(p: PayloadModel)
    requires
        fits_in_packet(p),
    ensures
        padded(wire_bytes(p)).take(wire_bytes(p).len() as int) == wire_bytes(p),
        decode_spec(wire_bytes(p)) == Ok::<PayloadModel, DecodeError>(p),
{
    let w = wire_bytes(p);
    assert(padded(w).take(w.len() as int) =~= w);
    if let PayloadModel::Message(text) = p {
        assert(w.drop_first() =~= encode_utf8(text));
        encode_utf8_valid_utf8(text);
        encode_utf8_decode_utf8(text);
    }
}

impl Payload {
    /// Encodes the payload into a fixed buffer of `PACKET_SIZE` bytes: the tag at
    /// offset 0, then the text of a message. A text longer than `MAX_TEXT_LEN`
    /// bytes is cut at that length; the rest of the buffer holds zeros.
    pub fn serialize_as_bytes(&self) -> (r: [u8; 2048])
        ensures
            r@ == padded(wire_bytes(self@)),
    {
        let mut bytes: [u8; 2048] = [0u8; 2048];
        match self {
            Payload::Connect => {
                bytes[0] = CONNECT_TAG;
            },
            Payload::Message { text } => {
                bytes[0] = MESSAGE_TAG;
                let src = text.as_str().as_bytes();
                let n: usize = if src.len() <= MAX_TEXT_LEN {
                    src.len()
                } else {
                    MAX_TEXT_LEN
                };
                assert(src@.take(n as int) == carried_text(text@));
                let mut i: usize = 0;
                while i < n
                    invariant
                        n <= src@.len(),
                        n <= MAX_TEXT_LEN,
                        i <= n,
                        bytes@.len() == PACKET_SIZE,
                        bytes@[0] == MESSAGE_TAG,
                        forall|j: int| 0 <= j < i ==> bytes@[j + 1] == src@[j],
                        forall|j: int| i + 1 <= j < PACKET_SIZE ==> bytes@[j] == 0u8,
                    decreases n - i,
                {
                    bytes[i + 1] = src[i];
                    i = i + 1;
                }
            },
        }
        assert(bytes@ =~= padded(wire_bytes(self@)));
        bytes
    }

    /// The bytes that are sent for this payload: the encoded buffer up to
    /// `encoded_len`, without the padding.
    pub fn to_datagram(&self) -> (r: Vec<u8>)
        ensures
            r@ == wire_bytes(self@),
    {
        let buffer = self.serialize_as_bytes();
        let n = self.encoded_len();
        let sent = slice_subrange(vstd::array::array_as_slice(&buffer), 0, n);
        assert(sent@ =~= wire_bytes(self@));
        slice_to_vec(sent)
    }

    /// Decodes a received datagram, of which `bytes` holds exactly the bytes
    /// received. Tag `0` gives a handshake, tag `1` a message whose text is the
    /// rest of the bytes; anything else is a decode failure.
    pub fn deserialize_from_bytes(bytes: &[u8]) -> (r: Result<Payload, DecodeError>)
        ensures
            decoded_view(r) == decode_spec(bytes@),
            bytes@.len() == 0 ==> r == Err::<Payload, DecodeError>(DecodeError::Truncated),
            bytes@.len() > 0 && bytes@[0] != CONNECT_TAG && bytes@[0] != MESSAGE_TAG ==> r
                == Err::<Payload, DecodeError>(DecodeError::UnknownPayloadKind(bytes@[0])),
    {
        if bytes.len() == 0 {
            return Err(DecodeError::Truncated);
        }
        let tag = bytes[0];
        if tag == CONNECT_TAG {
            Ok(Payload::Connect)
        } else if tag == MESSAGE_TAG {
            let body = slice_subrange(bytes, 1, bytes.len());
            assert(body@ =~= bytes@.drop_first());
            match text_from_utf8(body) {
                Some(text) => Ok(Payload::Message { text }),
                None => Err(DecodeError::InvalidUtf8),
            }
        } else {
            Err(DecodeError::UnknownPayloadKind(tag))
        }
    }

    /// Number of bytes of the encoded payload that are sent.
    pub fn encoded_len(&self) -> (r: usize)
        ensures
            r == wire_bytes(self@).len(),
            1 <= r <= PACKET_SIZE,
    {
        match self {
            Payload::Connect => {
                assert(wire_bytes(self@).len() == 1);
                1
            },
            Payload::Message { text } => {
                let n = text.as_str().as_bytes().len();
                if n <= MAX_TEXT_LEN {
                    n + 1
                } else {
                    PACKET_SIZE
                }
            },
        }
    }
}

} // verus!
