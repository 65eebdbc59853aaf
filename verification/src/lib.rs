//! A small ping library: the ICMP message codec (RFC 1071 Internet checksum,
//! marshal/parse of echo datagrams) and the session logic that matches echo
//! replies to requests by their correlation token.

pub mod checksum;
pub mod icmp;
pub mod num_serialize;
pub mod pinger;
