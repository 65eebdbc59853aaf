//! The ICMP message codec: a structured message, its wire form
//! `[type, code, checksum(2), rest_of_header(4), body...]`, and the
//! marshal/parse pair built on the Internet checksum.

use crate::checksum::{
    checksum, checksum_spec, lemma_byte_change_breaks_checksum, lemma_embed_checksum_valid,
    lemma_oc_fold_bounded, lemma_words_bounded, valid_checksum, words,
};
use vstd::prelude::*;

verus! {

/// The ICMP message types this codec recognizes.
#[derive(Copy, Clone, Debug, PartialEq, Eq, Structural)]
pub enum MessageType {
    EchoReply,
    DestinationUnreachable,
    Redirect,
    Echo,
    RouterAdvertisement,
    RouterSolicitation,
    TimeExceeded,
    ParameterProblem,
    Timestamp,
    TimestampReply,
    Photuris,
    ExtendedEchoRequest,
    ExtendedEchoReply,
}

/// The errors of the codec and of the transport framing around it.
#[derive(Copy, Clone, Debug, PartialEq, Eq, Structural)]
pub enum IcmpError {
    /// The buffer is shorter than the 8-byte ICMP header.
    TooShort,
    /// The checksum over the received buffer is neither 0x0000 nor 0xFFFF.
    ChecksumInvalid,
    /// Byte 0 does not name a recognized message type.
    UnknownType,
    /// A received datagram is too short to carry the fixed IPv4 header.
    MalformedPacket,
    /// The operating system refused a socket operation; carries the errno.
    OsError(i32),
    /// No datagram arrived within the configured receive timeout.
    Timeout,
    /// The kernel-filled peer address does not describe an IPv4 peer.
    AddressFamilyMismatch,
}

/// The wire value of a message type.
pub open spec fn message_type_code(t: MessageType) -> u8 {
    match t {
        MessageType::EchoReply => 0,
        MessageType::DestinationUnreachable => 3,
        MessageType::Redirect => 5,
        MessageType::Echo => 8,
        MessageType::RouterAdvertisement => 9,
        MessageType::RouterSolicitation => 10,
        MessageType::TimeExceeded => 11,
        MessageType::ParameterProblem => 12,
        MessageType::Timestamp => 13,
        MessageType::TimestampReply => 14,
        MessageType::Photuris => 40,
        MessageType::ExtendedEchoRequest => 42,
        MessageType::ExtendedEchoReply => 43,
    }
}

/// The message type a wire value names, if any.
pub open spec fn message_type_from_code(b: u8) -> Option<MessageType> {
    if b == 0 {
        Some(MessageType::EchoReply)
    } else if b == 3 {
        Some(MessageType::DestinationUnreachable)
    } else if b == 5 {
        Some(MessageType::Redirect)
    } else if b == 8 {
        Some(MessageType::Echo)
    } else if b == 9 {
        Some(MessageType::RouterAdvertisement)
    } else if b == 10 {
        Some(MessageType::RouterSolicitation)
    } else if b == 11 {
        Some(MessageType::TimeExceeded)
    } else if b == 12 {
        Some(MessageType::ParameterProblem)
    } else if b == 13 {
        Some(MessageType::Timestamp)
    } else if b == 14 {
        Some(MessageType::TimestampReply)
    } else if b == 40 {
        Some(MessageType::Photuris)
    } else if b == 42 {
        Some(MessageType::ExtendedEchoRequest)
    } else if b == 43 {
        Some(MessageType::ExtendedEchoReply)
    } else {
        None
    }
}

/// Decoding the wire value of a message type gives the type back.
pub proof fn lemma_type_code_round_trip(t: MessageType)
    ensures
        message_type_from_code(message_type_code(t)) == Some(t),
{
}

/// Emits the wire value of a message type.
pub fn message_type_to_u8(t: MessageType) -> (r: u8)
    ensures
        r == message_type_code(t),
{
    match t {
        MessageType::EchoReply => 0,
        MessageType::DestinationUnreachable => 3,
        MessageType::Redirect => 5,
        MessageType::Echo => 8,
        MessageType::RouterAdvertisement => 9,
        MessageType::RouterSolicitation => 10,
        MessageType::TimeExceeded => 11,
        MessageType::ParameterProblem => 12,
        MessageType::Timestamp => 13,
        MessageType::TimestampReply => 14,
        MessageType::Photuris => 40,
        MessageType::ExtendedEchoRequest => 42,
        MessageType::ExtendedEchoReply => 43,
    }
}

/// Recognizes the wire value of a message type.
pub fn message_type_from_u8(b: u8) -> (r: Option<MessageType>)
    ensures
        r == message_type_from_code(b),
{
    if b == 0 {
        Some(MessageType::EchoReply)
    } else if b == 3 {
        Some(MessageType::DestinationUnreachable)
    } else if b == 5 {
        Some(MessageType::Redirect)
    } else if b == 8 {
        Some(MessageType::Echo)
    } else if b == 9 {
        Some(MessageType::RouterAdvertisement)
    } else if b == 10 {
        Some(MessageType::RouterSolicitation)
    } else if b == 11 {
        Some(MessageType::TimeExceeded)
    } else if b == 12 {
        Some(MessageType::ParameterProblem)
    } else if b == 13 {
        Some(MessageType::Timestamp)
    } else if b == 14 {
        Some(MessageType::TimestampReply)
    } else if b == 40 {
        Some(MessageType::Photuris)
    } else if b == 42 {
        Some(MessageType::ExtendedEchoRequest)
    } else if b == 43 {
        Some(MessageType::ExtendedEchoReply)
    } else {
        None
    }
}

/// One ICMP datagram: type, subtype code, the opaque 4-byte rest-of-header
/// used as a correlation token for echo messages, and the payload.
#[derive(Debug, Clone, PartialEq, Eq)]
pub struct Message {
    pub message_type: MessageType,
    pub code: u8,
    pub rest_of_header: [u8; 4],
    pub body: Vec<u8>,
}

/// The mathematical model of a message.
pub ghost struct MessageModel {
    pub message_type: MessageType,
    pub code: u8,
    pub rest_of_header: Seq<u8>,
    pub body: Seq<u8>,
}

impl View for Message {
    type V = MessageModel;

    open spec fn view(&self) -> MessageModel {
        MessageModel {
            message_type: self.message_type,
            code: self.code,
            rest_of_header: self.rest_of_header@,
            body: self.body@,
        }
    }
}

/// A model is well formed when its rest-of-header holds exactly four bytes.
pub open spec fn wf_message(m: MessageModel) -> bool {
    m.rest_of_header.len() == 4
}

/// The wire form of a message before the checksum is filled in: the checksum
/// field holds zero.
pub open spec fn marshal_zero(m: MessageModel) -> Seq<u8> {
    seq![message_type_code(m.message_type), m.code, 0u8, 0u8] + m.rest_of_header + m.body
}

/// The wire form of a message: the checksum computed over the zero-field
/// buffer, embedded at bytes 2 and 3 most-significant byte first.
pub open spec fn marshal_model(m: MessageModel) -> Seq<u8> {
    let cs = checksum_spec(marshal_zero(m));
    marshal_zero(m).update(2, (cs / 256) as u8).update(3, (cs % 256) as u8)
}

/// What parsing a buffer yields: the checks run in the order
/// length, checksum, message type; the code, rest-of-header and body are
/// taken verbatim from their offsets.
pub open spec fn parse_model(data: Seq<u8>) -> Result<MessageModel, IcmpError> {
    if data.len() < 8 {
        Err(IcmpError::TooShort)
    } else if !valid_checksum(data) {
        Err(IcmpError::ChecksumInvalid)
    } else {
        match message_type_from_code(data[0]) {
            None => Err(IcmpError::UnknownType),
            Some(t) => Ok(
                MessageModel {
                    message_type: t,
                    code: data[1],
                    rest_of_header: data.subrange(4, 8),
                    body: data.subrange(8, data.len() as int),
                },
            ),
        }
    }
}

impl Message {
    /// Encodes the message into its wire form with the checksum embedded.
    pub fn marshal(&self) -> (r: Vec<u8>)
        ensures
            r@ == marshal_model(self@),
            r@.len() == 8 + self.body@.len(),
    {
        let ghost zero = marshal_zero(self@);
        let mut buf: Vec<u8> = Vec::new();
        buf.push(message_type_to_u8(self.message_type));
        buf.push(self.code);
        buf.push(0u8);
        buf.push(0u8);
        buf.push(self.rest_of_header[0]);
        buf.push(self.rest_of_header[1]);
        buf.push(self.rest_of_header[2]);
        buf.push(self.rest_of_header[3]);
        proof {
            assert(zero.len() == 8 + self@.body.len());
            assert(buf@ =~= zero.take(8));
        }
        let mut i: usize = 0;
        while i < self.body.len()
            invariant
                i <= self.body@.len(),
                zero == marshal_zero(self@),
                zero.len() == 8 + self.body@.len(),
                buf@ == zero.take(8 + i as int),
            decreases self.body@.len() - i,
        {
            buf.push(self.body[i]);
            proof {
                assert(zero[8 + i as int] == self.body@[i as int]);
                assert(zero.take(8 + i + 1) =~= zero.take(8 + i as int).push(self.body@[i as int]));
            }
            i = i + 1;
        }
        proof {
            assert(buf@ =~= zero);
        }
        let cs = checksum(buf.as_slice());
        proof {
            lemma_words_bounded(zero);
            lemma_oc_fold_bounded(words(zero));
        }
        let hi = (cs / 256) as u8;
        let lo = (cs % 256) as u8;
        buf[2] = hi;
        buf[3] = lo;
        buf
    }

    /// Decodes a wire buffer into a message, or says exactly why it cannot.
    pub fn parse(data: &[u8]) -> (r: Result<Message, IcmpError>)
        ensures
            r is Ok <==> parse_model(data@) is Ok,
            r is Ok ==> r->Ok_0@ == parse_model(data@)->Ok_0,
            r is Err ==> r->Err_0 == parse_model(data@)->Err_0,
    {
        if data.len() < 8 {
            return Err(IcmpError::TooShort);
        }
        let cs = checksum(data);
        if cs != 0 && cs != 0xFFFF {
            return Err(IcmpError::ChecksumInvalid);
        }
        let t = match message_type_from_u8(*vstd::slice::slice_index_get(data, 0)) {
            Some(t) => t,
            None => {
                return Err(IcmpError::UnknownType);
            },
        };
        let code = *vstd::slice::slice_index_get(data, 1);
        let rest_of_header = [
            *vstd::slice::slice_index_get(data, 4),
            *vstd::slice::slice_index_get(data, 5),
            *vstd::slice::slice_index_get(data, 6),
            *vstd::slice::slice_index_get(data, 7),
        ];
        let body = vstd::slice::slice_to_vec(vstd::slice::slice_subrange(data, 8, data.len()));
        let m = Message { message_type: t, code, rest_of_header, body };
        proof {
            assert(m@.rest_of_header =~= data@.subrange(4, 8));
        }
        Ok(m)
    }
}

/// Strips the fixed 20-byte IPv4 header that a raw socket delivers in front
/// of the ICMP message.
pub fn cut_off_ipv4_header(data: &[u8]) -> (r: Result<&[u8], IcmpError>)
    ensures
        r is Ok <==> data@.len() >= 20,
        r is Ok ==> r->Ok_0@ == data@.subrange(20, data@.len() as int),
        r is Err ==> r->Err_0 == IcmpError::MalformedPacket,
{
    if data.len() < 20 {
        return Err(IcmpError::MalformedPacket);
    }
    Ok(vstd::slice::slice_subrange(data, 20, data.len()))
}

/// Every marshaled message passes checksum validation.
pub proof fn lemma_marshal_valid_checksum(m: MessageModel)
    requires
        wf_message(m),
    ensures
        valid_checksum(marshal_model(m)),
{
    let zero = marshal_zero(m);
    assert(zero.len() >= 8);
    assert(zero[2] == 0 && zero[3] == 0);
    lemma_embed_checksum_valid(zero);
}

/// The round-trip law: parsing the wire form of a well-formed message gives
/// the message back, in type, code, rest-of-header and body.
pub proof fn lemma_marshal_parse_round_trip(m: MessageModel)
    requires
        wf_message(m),
    ensures
        parse_model(marshal_model(m)) == Ok::<MessageModel, IcmpError>(m),
{
    lemma_marshal_valid_checksum(m);
    lemma_type_code_round_trip(m.message_type);
    let zero = marshal_zero(m);
    let out = marshal_model(m);
    assert(out.len() == zero.len() == 8 + m.body.len());
    assert(out[0] == message_type_code(m.message_type));
    assert(out[1] == m.code);
    assert(out.subrange(4, 8) =~= m.rest_of_header);
    assert(out.subrange(8, out.len() as int) =~= m.body);
}

/// Corrupting any one byte among the first eight of a marshaled message —
/// any single bit flip included — makes parsing fail with `ChecksumInvalid`:
/// a one-byte change can never re-balance the one's-complement sum.
pub proof fn lemma_corrupt_header_fails_checksum(m: MessageModel, i: int, v: u8)
    requires
        wf_message(m),
        0 <= i < 8,
        v != marshal_model(m)[i],
    ensures
        parse_model(marshal_model(m).update(i, v)) == Err::<MessageModel, IcmpError>(
            IcmpError::ChecksumInvalid,
        ),
{
    lemma_marshal_valid_checksum(m);
    lemma_byte_change_breaks_checksum(marshal_model(m), i, v);
}

/// Flipping any single bit among the first eight bytes of a marshaled
/// message makes parsing fail with `ChecksumInvalid`.
pub proof fn lemma_bit_flip_fails_checksum(m: MessageModel, i: int, bit: u8)
    requires
        wf_message(m),
        0 <= i < 8,
        bit < 8,
    ensures
        parse_model(
            marshal_model(m).update(i, marshal_model(m)[i] ^ (1u8 << bit)),
        ) == Err::<MessageModel, IcmpError>(IcmpError::ChecksumInvalid),
{
    let b = marshal_model(m)[i];
    let v = b ^ (1u8 << bit);
    assert(v != b) by (bit_vector)
        requires
            bit < 8,
            v == b ^ (1u8 << bit),
    ;
    lemma_corrupt_header_fails_checksum(m, i, v);
}

} // verus!
