//! Transport decisions that do not touch a socket: which transport a host
//! uses, which received datagram answers a probe, and what the OS echo
//! facility's reply means.

use crate::address::IpAddress;
use crate::packet::{parse_message, reply_type, IcmpPacket, HEADER_LEN};
use crate::text::{decimal, push_decimal, push_str};
use vstd::prelude::*;

verus! {

/// Length of an IPv4 header without options.
pub const IPV4_HEADER_LEN: usize = 20;

/// Shortest datagram read as an IPv4 header followed by an ICMP message.
pub const MIN_WRAPPED_LEN: usize = 28;

/// Offset of the TTL field in an IPv4 header.
pub const IPV4_TTL_OFFSET: usize = 8;

/// TTL (or hop limit) reported when the received datagram does not show it.
pub const DEFAULT_TTL: u32 = 64;

/// TTL that the OS echo facility sends with when none is configured.
pub const FALLBACK_DEFAULT_TTL: u32 = 128;

/// One answered probe.
#[derive(Debug, Clone, Copy, PartialEq, Eq, Structural)]
pub struct IcmpResponse {
    pub source: IpAddress,
    pub bytes: u32,
    /// Round trip in microseconds.
    pub time_us: u32,
    pub ttl: u32,
    pub sequence: u16,
}

/// ICMP error conditions.
#[derive(Debug, Clone, Copy, PartialEq, Eq, Structural)]
pub enum IcmpError {
    DestinationUnreachable,
    TimeExceeded,
    ParameterProblem,
    SourceQuench,
    Redirect,
    Unknown(u8),
}

impl IcmpError {
    /// The text that describes the condition.
    pub fn message(&self) -> (r: String)
        ensures
            r@ == icmp_error_text(*self),
    {
        let mut s = String::new();
        match self {
            IcmpError::DestinationUnreachable => push_str(&mut s, "Destination host unreachable"),
            IcmpError::TimeExceeded => push_str(&mut s, "Request timed out"),
            IcmpError::ParameterProblem => push_str(&mut s, "Parameter problem"),
            IcmpError::SourceQuench => push_str(&mut s, "Source quench"),
            IcmpError::Redirect => push_str(&mut s, "Redirect"),
            IcmpError::Unknown(code) => {
                push_str(&mut s, "Unknown ICMP error: ");
                push_decimal(&mut s, *code as u64);
            },
        }
        assert(s@ =~= icmp_error_text(*self));
        s
    }
}

/// The description of an ICMP error condition.
pub open spec fn icmp_error_text(e: IcmpError) -> Seq<char> {
    match e {
        IcmpError::DestinationUnreachable => "Destination host unreachable"@,
        IcmpError::TimeExceeded => "Request timed out"@,
        IcmpError::ParameterProblem => "Parameter problem"@,
        IcmpError::SourceQuench => "Source quench"@,
        IcmpError::Redirect => "Redirect"@,
        IcmpError::Unknown(code) => "Unknown ICMP error: "@ + decimal(code as nat),
    }
}

/// A received datagram that answers the probe waited for.
#[derive(Debug, Clone, Copy, PartialEq, Eq, Structural)]
pub struct MatchedReply {
    /// TTL of the reply, or the default where the datagram does not show it.
    pub ttl: u32,
    /// Payload bytes in the reply.
    pub payload_len: usize,
}

/// The datagram starts with an IPv4 header: at least 28 bytes, version nibble 4.
pub open spec fn has_ipv4_header(b: Seq<u8>) -> bool {
    b.len() >= MIN_WRAPPED_LEN && b[0] / 16 == 4
}

/// The ICMP message inside a datagram: past the 20-byte header where there is one.
pub open spec fn icmp_part(b: Seq<u8>) -> Seq<u8> {
    if has_ipv4_header(b) {
        b.subrange(IPV4_HEADER_LEN as int, b.len() as int)
    } else {
        b
    }
}

/// What a datagram says of the probe `(identifier, sequence)`: a match when it
/// holds an Echo Reply of the family with both fields equal; nothing otherwise,
/// including when it is too short to decode.
pub open spec fn reply_match(b: Seq<u8>, is_ipv6: bool, identifier: u16, sequence: u16) -> Option<
    MatchedReply,
> {
    let m = icmp_part(b);
    if m.len() < 8 {
        None
    } else {
        let msg = parse_message(m);
        if msg.icmp_type == reply_type(is_ipv6) && msg.identifier == identifier && msg.sequence
            == sequence {
            Some(
                MatchedReply {
                    ttl: if is_ipv6 {
                        DEFAULT_TTL
                    } else if has_ipv4_header(b) {
                        b[IPV4_TTL_OFFSET as int] as u32
                    } else {
                        DEFAULT_TTL
                    },
                    payload_len: msg.payload.len() as usize,
                },
            )
        } else {
            None
        }
    }
}

/// Classifies one datagram read from a raw socket while waiting for the
/// reply to `(expected_id, expected_seq)`; anything that is not that reply
/// is to be skipped.
pub fn match_reply(buf: &[u8], is_ipv6: bool, expected_id: u16, expected_seq: u16) -> (r: Option<
    MatchedReply,
>)
    ensures
        r == reply_match(buf@, is_ipv6, expected_id, expected_seq),
{
    let n = buf.len();
    let wrapped = n >= MIN_WRAPPED_LEN && buf[0] / 16 == 4;
    let icmp: &[u8] = if wrapped {
        &buf[IPV4_HEADER_LEN..n]
    } else {
        buf
    };
    assert(icmp@ == icmp_part(buf@));
    if icmp.len() < HEADER_LEN {
        return None;
    }
    match IcmpPacket::from_bytes(icmp) {
        Err(_) => None,
        Ok(packet) => {
            if packet.is_echo_reply(is_ipv6) && packet.identifier == expected_id && packet.sequence
                == expected_seq {
                let ttl: u32 = if is_ipv6 {
                    DEFAULT_TTL
                } else if wrapped {
                    buf[IPV4_TTL_OFFSET] as u32
                } else {
                    DEFAULT_TTL
                };
                Some(MatchedReply { ttl, payload_len: packet.payload.len() })
            } else {
                None
            }
        },
    }
}

/// How a host's probes are carried.
#[derive(Debug, Clone, Copy, PartialEq, Eq, Structural)]
pub enum TransportKind {
    /// A raw ICMP socket.
    Raw,
    /// The OS echo facility (IPv4 only).
    Fallback,
    /// Neither: every probe of the host is counted lost.
    Unavailable,
}

/// The raw socket when it could be opened; else the OS echo facility for
/// IPv4 when it is available; else none.
pub fn choose_transport(raw_available: bool, is_ipv6: bool, fallback_available: bool) -> (r:
    TransportKind)
    ensures
        raw_available ==> r == TransportKind::Raw,
        !raw_available && !is_ipv6 && fallback_available ==> r == TransportKind::Fallback,
        !raw_available && (is_ipv6 || !fallback_available) ==> r == TransportKind::Unavailable,
{
    if raw_available {
        TransportKind::Raw
    } else if !is_ipv6 && fallback_available {
        TransportKind::Fallback
    } else {
        TransportKind::Unavailable
    }
}

/// Why the OS echo facility gave no usable reply.
#[derive(Debug, Clone, Copy, PartialEq, Eq, Structural)]
pub enum FallbackError {
    /// The facility serves IPv4 only.
    Ipv6Unsupported,
    /// No reply within the timeout, or the request failed.
    NoReply,
    /// The reply buffer is too short to hold a reply record.
    ShortReply,
    /// The reply record carries a non-zero status.
    Status(u32),
}

/// The TTL that the facility sends with: the configured one, truncated to a
/// byte, else `FALLBACK_DEFAULT_TTL`.
pub fn fallback_ttl(ttl: Option<u32>) -> (r: u8)
    ensures
        r == (match ttl {
            Some(t) => (t % 256) as int,
            None => FALLBACK_DEFAULT_TTL as int,
        }),
{
    match ttl {
        Some(t) => (t % 256) as u8,
        None => FALLBACK_DEFAULT_TTL as u8,
    }
}

/// Offset of the status field in the facility's reply record.
pub const REPLY_STATUS_OFFSET: usize = 4;

/// Little-endian 32-bit value of four bytes.
pub open spec fn le_u32(b0: u8, b1: u8, b2: u8, b3: u8) -> nat {
    (b0 + 256 * b1 + 65536 * b2 + 16777216 * b3) as nat
}

/// What a call of the facility means: no reply when it reported none;
/// otherwise the status field of the first reply record (little-endian at
/// offset 4) must be zero, and the TTL that was sent with is reported.
pub open spec fn fallback_result(replies: u32, record: Seq<u8>, ttl: u8) -> Result<
    u32,
    FallbackError,
> {
    if replies == 0 {
        Err(FallbackError::NoReply)
    } else if record.len() < 8 {
        Err(FallbackError::ShortReply)
    } else {
        let status = le_u32(record[4], record[5], record[6], record[7]);
        if status != 0 {
            Err(FallbackError::Status(status as u32))
        } else {
            Ok(ttl as u32)
        }
    }
}

/// Interprets the facility's answer: the count of replies it returned and
/// the reply buffer it filled.
pub fn interpret_fallback_reply(replies: u32, record: &[u8], ttl: u8) -> (r: Result<
    u32,
    FallbackError,
>)
    ensures
        r == fallback_result(replies, record@, ttl),
{
    if replies == 0 {
        return Err(FallbackError::NoReply);
    }
    if record.len() < 8 {
        return Err(FallbackError::ShortReply);
    }
    let status: u32 = (record[4] as u32) + 256 * (record[5] as u32) + 65536 * (record[6] as u32)
        + 16777216 * (record[7] as u32);
    if status != 0 {
        Err(FallbackError::Status(status))
    } else {
        Ok(ttl as u32)
    }
}

/// The facility's result for a target: IPv6 targets are refused before any call.
pub fn fallback_target(target: IpAddress) -> (r: Result<u32, FallbackError>)
    ensures
        target is V6 ==> r == Err::<u32, FallbackError>(FallbackError::Ipv6Unsupported),
        target matches IpAddress::V4(a) ==> r == Ok::<u32, FallbackError>(a),
{
    match target {
        IpAddress::V4(a) => Ok(a),
        IpAddress::V6(_) => Err(FallbackError::Ipv6Unsupported),
    }
}

} // verus!
