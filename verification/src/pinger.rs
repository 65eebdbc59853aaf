//! The ping session: a monotonically increasing sequence counter, the echo
//! request built from it, and the decision taken on each received event of
//! one echo round. The blocking socket work itself stays outside; the loop
//! around it feeds every receive result to [`handle_recv_event`].

use crate::icmp::{parse_model, IcmpError, Message, MessageType};
use crate::num_serialize::{u32_to_be, u32_to_be_spec};
use vstd::prelude::*;

verus! {

/// What one ping attempt came to.
#[derive(Copy, Clone, Debug, PartialEq, Eq, Structural)]
pub enum Outcome {
    /// The matching echo reply arrived.
    Replied,
    /// No matching reply arrived within the receive timeout.
    TimedOut,
    /// The request could not be sent.
    SendFailed(IcmpError),
}

/// What one receive call of the transport handed back.
#[derive(Debug, Clone, PartialEq, Eq)]
pub enum RecvEvent {
    /// A whole inbound datagram as the raw socket delivers it: the fixed
    /// 20-byte IPv4 header followed by the ICMP bytes.
    Datagram(Vec<u8>),
    /// The receive timeout elapsed with no datagram.
    Timeout,
    /// The receive failed for another reason; carries the errno.
    Failed(i32),
}

/// The mathematical model of a receive event.
pub ghost enum EventModel {
    Datagram(Seq<u8>),
    Timeout,
    Failed(i32),
}

impl View for RecvEvent {
    type V = EventModel;

    open spec fn view(&self) -> EventModel {
        match self {
            RecvEvent::Datagram(d) => EventModel::Datagram(d@),
            RecvEvent::Timeout => EventModel::Timeout,
            RecvEvent::Failed(e) => EventModel::Failed(*e),
        }
    }
}

/// A datagram settles the round exactly when, after the IPv4 header is
/// stripped, it parses to an echo reply bearing the current token.
pub open spec fn datagram_matches(data: Seq<u8>, token: Seq<u8>) -> bool {
    &&& data.len() >= 20
    &&& parse_model(data.subrange(20, data.len() as int)) is Ok
    &&& parse_model(data.subrange(20, data.len() as int))->Ok_0.message_type
        == MessageType::EchoReply
    &&& parse_model(data.subrange(20, data.len() as int))->Ok_0.rest_of_header == token
}

/// The decision one receive event leads to: `None` keeps the round waiting.
pub open spec fn handle_model(token: Seq<u8>, ev: EventModel) -> Option<Outcome> {
    match ev {
        EventModel::Timeout => Some(Outcome::TimedOut),
        EventModel::Failed(_) => None,
        EventModel::Datagram(d) => if datagram_matches(d, token) {
            Some(Outcome::Replied)
        } else {
            None
        },
    }
}

/// Decides one receive event of an echo round against the token of the
/// request just sent. A timeout ends the round; a matching reply ends it;
/// everything else — an unrelated or stale message, a buffer that fails to
/// parse, a failed receive — is noise and the round keeps waiting.
pub fn handle_recv_event(token: &[u8; 4], event: &RecvEvent) -> (r: Option<Outcome>)
    ensures
        r == handle_model(token@, event@),
        event@ is Timeout ==> r == Some(Outcome::TimedOut),
{
    match event {
        RecvEvent::Timeout => Some(Outcome::TimedOut),
        RecvEvent::Failed(_) => None,
        RecvEvent::Datagram(data) => {
            match crate::icmp::cut_off_ipv4_header(data.as_slice()) {
                Err(_) => None,
                Ok(icmp_bytes) => match Message::parse(icmp_bytes) {
                    Err(_) => None,
                    Ok(m) => {
                        let tok = &m.rest_of_header;
                        if m.message_type == MessageType::EchoReply && tok[0] == token[0] && tok[1]
                            == token[1] && tok[2] == token[2] && tok[3] == token[3] {
                            proof {
                                assert(m.rest_of_header@ =~= token@);
                            }
                            Some(Outcome::Replied)
                        } else {
                            proof {
                                if m.rest_of_header@ == token@ {
                                    assert(m.rest_of_header@[0] == token@[0]);
                                    assert(m.rest_of_header@[1] == token@[1]);
                                    assert(m.rest_of_header@[2] == token@[2]);
                                    assert(m.rest_of_header@[3] == token@[3]);
                                }
                            }
                            None
                        }
                    },
                },
            }
        },
    }
}

/// A datagram that parses to an echo reply bearing the current token settles
/// the round as replied.
pub proof fn lemma_matching_reply_settles(token: Seq<u8>, data: Seq<u8>)
    requires
        datagram_matches(data, token),
    ensures
        handle_model(token, EventModel::Datagram(data)) == Some(Outcome::Replied),
{
}

/// A reply carrying a correlation token other than the current one — a stale
/// reply from an earlier attempt, or any unrelated message — never settles
/// the round: only a timeout or a reply with the current token can.
pub proof fn lemma_stale_reply_ignored(token: Seq<u8>, data: Seq<u8>)
    requires
        data.len() < 20 || parse_model(data.subrange(20, data.len() as int)) is Err || parse_model(
            data.subrange(20, data.len() as int),
        )->Ok_0.rest_of_header != token,
    ensures
        handle_model(token, EventModel::Datagram(data)) is None,
{
}

/// The session configuration: destination host, the pause between attempts,
/// the receive/send timeout (`None`: wait forever), and how many attempts to
/// make (`None`: no limit). Times are in whole seconds.
#[derive(Debug, Clone, PartialEq, Eq)]
pub struct Config {
    pub host: String,
    pub interval_secs: u64,
    pub timeout_secs: Option<u64>,
    pub count: Option<u64>,
}

/// One ping session: the sequence number of the next request, and the
/// timeout the transport is asked to apply.
pub struct Pinger {
    pub next_sequence: u32,
    pub timeout_secs: Option<u64>,
}

/// The sequence counter after one attempt: one more, wrapping modulo 2^32.
pub open spec fn next_seq(s: u32) -> u32 {
    if s == u32::MAX {
        0
    } else {
        (s + 1) as u32
    }
}

impl Pinger {
    /// A fresh session: the first request carries sequence number 1, and no
    /// timeout is configured yet.
    pub fn new() -> (r: Pinger)
        ensures
            r.next_sequence == 1,
            r.timeout_secs is None,
    {
        Pinger { next_sequence: 1, timeout_secs: None }
    }

    /// Records the timeout that the transport is to apply to both sending
    /// and receiving; `None` clears it (infinite wait).
    pub fn set_timeout(&mut self, timeout_secs: Option<u64>)
        ensures
            final(self).timeout_secs == timeout_secs,
            final(self).next_sequence == old(self).next_sequence,
    {
        self.timeout_secs = timeout_secs;
    }

    /// Builds the echo request of the next attempt — type Echo, code 0,
    /// empty body, the sequence number spread big-endian over the four
    /// rest-of-header bytes as the correlation token — and advances the
    /// counter by exactly one, wrapping, before any reply is awaited.
    pub fn next_request(&mut self) -> (r: Message)
        ensures
            r.message_type == MessageType::Echo,
            r.code == 0,
            r.body@.len() == 0,
            r.rest_of_header@ == u32_to_be_spec(old(self).next_sequence),
            final(self).next_sequence == next_seq(old(self).next_sequence),
            final(self).timeout_secs == old(self).timeout_secs,
    {
        let token = u32_to_be(self.next_sequence);
        self.next_sequence = self.next_sequence.wrapping_add(1);
        Message { message_type: MessageType::Echo, code: 0, rest_of_header: token, body: Vec::new() }
    }
}

} // verus!
