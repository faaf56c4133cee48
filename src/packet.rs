//! ICMP Echo messages: building, serialising, decoding and checksum checks.

use crate::checksum::{
    checksum_accepts, flip_bit, internet_checksum, lemma_flip_detected,
    lemma_fold_carries, lemma_ones_add, lemma_words_sum_delta, lemma_words_sum_step,
    ones_complement, word_at, word_count, word_sum, words_sum,
};
use vstd::prelude::*;

verus! {

pub const ICMP_ECHO_REQUEST: u8 = 8;

pub const ICMP_ECHO_REPLY: u8 = 0;

pub const ICMPV6_ECHO_REQUEST: u8 = 128;

pub const ICMPV6_ECHO_REPLY: u8 = 129;

/// The byte that fills the payload of every Echo Request.
pub const PAYLOAD_FILL: u8 = 0x61;

/// Length of the fixed ICMP Echo header.
pub const HEADER_LEN: usize = 8;

/// High byte of a big-endian 16-bit field.
pub open spec fn hi_byte(x: u16) -> u8 {
    (x / 256) as u8
}

/// Low byte of a big-endian 16-bit field.
pub open spec fn lo_byte(x: u16) -> u8 {
    (x % 256) as u8
}

/// The 16-bit value of two big-endian bytes.
pub open spec fn be_u16(hi: u8, lo: u8) -> u16 {
    (hi * 256 + lo) as u16
}

/// An ICMP Echo message as a mathematical value.
pub ghost struct EchoModel {
    pub icmp_type: u8,
    pub code: u8,
    pub checksum: u16,
    pub identifier: u16,
    pub sequence: u16,
    pub payload: Seq<u8>,
}

impl EchoModel {
    /// The serialised form: the five header fields in big-endian order, then the payload.
    pub open spec fn bytes(self) -> Seq<u8> {
        seq![
            self.icmp_type,
            self.code,
            hi_byte(self.checksum),
            lo_byte(self.checksum),
            hi_byte(self.identifier),
            lo_byte(self.identifier),
            hi_byte(self.sequence),
            lo_byte(self.sequence),
        ] + self.payload
    }

    /// The same message with its checksum field replaced.
    pub open spec fn with_checksum(self, checksum: u16) -> EchoModel {
        EchoModel { checksum, ..self }
    }

    /// The same message with the checksum computed over it with a zero checksum field.
    pub open spec fn stamped(self) -> EchoModel {
        self.with_checksum(internet_checksum(self.with_checksum(0).bytes()))
    }
}

/// Reads an Echo message from at least eight bytes.
pub open spec fn parse_message(b: Seq<u8>) -> EchoModel {
    EchoModel {
        icmp_type: b[0],
        code: b[1],
        checksum: be_u16(b[2], b[3]),
        identifier: be_u16(b[4], b[5]),
        sequence: be_u16(b[6], b[7]),
        payload: b.subrange(8, b.len() as int),
    }
}

/// The Echo Request type for an address family.
pub open spec fn request_type(is_ipv6: bool) -> u8 {
    if is_ipv6 {
        ICMPV6_ECHO_REQUEST
    } else {
        ICMP_ECHO_REQUEST
    }
}

/// The Echo Reply type for an address family.
pub open spec fn reply_type(is_ipv6: bool) -> u8 {
    if is_ipv6 {
        ICMPV6_ECHO_REPLY
    } else {
        ICMP_ECHO_REPLY
    }
}

/// The Echo Request that a probe sends, checksum stamped.
pub open spec fn echo_request_model(
    identifier: u16,
    sequence: u16,
    payload_size: nat,
    is_ipv6: bool,
) -> EchoModel {
    EchoModel {
        icmp_type: request_type(is_ipv6),
        code: 0,
        checksum: 0,
        identifier,
        sequence,
        payload: Seq::new(payload_size, |i: int| PAYLOAD_FILL),
    }.stamped()
}

/// Why received bytes are not an Echo message.
#[derive(Debug, Clone, Copy, PartialEq, Eq)]
pub enum DecodeError {
    /// Fewer than eight bytes.
    TooShort,
}

#[derive(Debug, Clone)]
pub struct IcmpPacket {
    pub icmp_type: u8,
    pub code: u8,
    pub checksum: u16,
    pub identifier: u16,
    pub sequence: u16,
    pub payload: Vec<u8>,
}

impl View for IcmpPacket {
    type V = EchoModel;

    open spec fn view(&self) -> EchoModel {
        EchoModel {
            icmp_type: self.icmp_type,
            code: self.code,
            checksum: self.checksum,
            identifier: self.identifier,
            sequence: self.sequence,
            payload: self.payload@,
        }
    }
}

impl IcmpPacket {
    /// Builds an Echo Request whose payload is `payload_size` fill bytes, checksum stamped.
    pub fn new_echo_request(identifier: u16, sequence: u16, payload_size: usize, is_ipv6: bool) -> (r:
        Self)
        ensures
            r@ == echo_request_model(identifier, sequence, payload_size as nat, is_ipv6),
    {
        let icmp_type = if is_ipv6 {
            ICMPV6_ECHO_REQUEST
        } else {
            ICMP_ECHO_REQUEST
        };
        let mut payload: Vec<u8> = Vec::new();
        let mut i: usize = 0;
        while i < payload_size
            invariant
                i <= payload_size,
                payload@ == Seq::new(i as nat, |j: int| PAYLOAD_FILL),
            decreases payload_size - i,
        {
            payload.push(PAYLOAD_FILL);
            i = i + 1;
            assert(payload@ =~= Seq::new(i as nat, |j: int| PAYLOAD_FILL));
        }
        let mut packet = Self { icmp_type, code: 0, checksum: 0, identifier, sequence, payload };
        packet.calculate_checksum();
        packet
    }

    /// Reads a message: the five header fields big-endian, the rest as payload.
    /// The checksum is not checked here.
    pub fn from_bytes(data: &[u8]) -> (r: Result<Self, DecodeError>)
        ensures
            data@.len() < 8 <==> r is Err,
            r matches Err(e) ==> e == DecodeError::TooShort,
            r matches Ok(p) ==> p@ == parse_message(data@),
    {
        if data.len() < HEADER_LEN {
            return Err(DecodeError::TooShort);
        }
        let icmp_type = data[0];
        let code = data[1];
        let checksum = read_be_u16(data[2], data[3]);
        let identifier = read_be_u16(data[4], data[5]);
        let sequence = read_be_u16(data[6], data[7]);
        let n = data.len();
        let mut payload: Vec<u8> = Vec::new();
        let mut i: usize = HEADER_LEN;
        while i < n
            invariant
                n == data@.len(),
                8 <= i <= n,
                payload@ == data@.subrange(8, i as int),
            decreases n - i,
        {
            payload.push(data[i]);
            i = i + 1;
            assert(payload@ =~= data@.subrange(8, i as int));
        }
        Ok(Self { icmp_type, code, checksum, identifier, sequence, payload })
    }

    /// The serialised message.
    pub fn to_bytes(&self) -> (r: Vec<u8>)
        ensures
            r@ == self@.bytes(),
    {
        let mut bytes: Vec<u8> = Vec::new();
        bytes.push(self.icmp_type);
        bytes.push(self.code);
        bytes.push((self.checksum / 256) as u8);
        bytes.push((self.checksum % 256) as u8);
        bytes.push((self.identifier / 256) as u8);
        bytes.push((self.identifier % 256) as u8);
        bytes.push((self.sequence / 256) as u8);
        bytes.push((self.sequence % 256) as u8);
        let n = self.payload.len();
        let mut i: usize = 0;
        while i < n
            invariant
                n == self.payload@.len(),
                i <= n,
                bytes@ == self@.bytes().subrange(0, 8 + i),
            decreases n - i,
        {
            bytes.push(self.payload[i]);
            i = i + 1;
            assert(bytes@ =~= self@.bytes().subrange(0, 8 + i));
        }
        assert(bytes@ =~= self@.bytes());
        bytes
    }

    /// Zeroes the checksum field, then stores the checksum of the serialised message.
    pub fn calculate_checksum(&mut self)
        ensures
            final(self)@ == old(self)@.stamped(),
    {
        self.checksum = 0;
        let bytes = self.to_bytes();
        self.checksum = Self::compute_checksum(bytes.as_slice());
        assert(final(self)@ =~= old(self)@.stamped());
    }

    /// The Internet checksum of `data`: big-endian words summed, an odd last
    /// byte padded with a zero low byte, carries folded back, complemented.
    pub fn compute_checksum(data: &[u8]) -> (r: u16)
        ensures
            r == internet_checksum(data@),
    {
        let n = data.len();
        let mut sum: u32 = 0;
        let mut i: usize = 0;
        while i + 1 < n
            invariant
                n == data@.len(),
                i % 2 == 0,
                i <= n,
                sum <= 0xFFFF,
                sum == ones_complement(words_sum(data@, (i / 2) as nat)),
            decreases n - i,
        {
            let word: u32 = (data[i] as u32) * 256 + (data[i + 1] as u32);
            proof {
                lemma_ones_add(words_sum(data@, (i / 2) as nat), word as nat);
                lemma_words_sum_step(data@, (i / 2) as nat);
            }
            sum = sum + word;
            if sum > 0xFFFF {
                sum = sum - 0xFFFF;
            }
            i = i + 2;
        }
        if i < n {
            let word: u32 = (data[i] as u32) * 256;
            proof {
                lemma_ones_add(words_sum(data@, (i / 2) as nat), word as nat);
                lemma_words_sum_step(data@, (i / 2) as nat);
            }
            sum = sum + word;
            if sum > 0xFFFF {
                sum = sum - 0xFFFF;
            }
        }
        proof {
            lemma_fold_carries(word_sum(data@));
        }
        (0xFFFF - sum) as u16
    }

    /// Whether the message is an Echo Reply of the given family; the code is not checked.
    pub fn is_echo_reply(&self, is_ipv6: bool) -> (r: bool)
        ensures
            r == (self.icmp_type == reply_type(is_ipv6)),
    {
        let expected_type = if is_ipv6 {
            ICMPV6_ECHO_REPLY
        } else {
            ICMP_ECHO_REPLY
        };
        self.icmp_type == expected_type
    }

    /// Whether the checksum recomputed over the whole serialised message is zero.
    pub fn verify_checksum(&self) -> (r: bool)
        ensures
            r == checksum_accepts(self@.bytes()),
    {
        let bytes = self.to_bytes();
        Self::compute_checksum(bytes.as_slice()) == 0
    }
}

/// The 16-bit value of two big-endian bytes.
fn read_be_u16(hi: u8, lo: u8) -> (r: u16)
    ensures
        r == be_u16(hi, lo),
{
    (hi as u16) * 256 + (lo as u16)
}

/// Decoding a serialised message gives the message back.
pub proof fn lemma_parse_bytes(m: EchoModel)
    ensures
        parse_message(m.bytes()) == m,
{
    let b = m.bytes();
    assert(b.subrange(8, b.len() as int) =~= m.payload);
    assert(parse_message(b) =~= m);
}

/// Serialising a decoded message gives the bytes back.
pub proof fn lemma_bytes_parse(b: Seq<u8>)
    requires
        b.len() >= 8,
    ensures
        parse_message(b).bytes() == b,
{
    assert(parse_message(b).bytes() =~= b);
}

/// Stamping makes the serialised message pass the checksum check.
pub proof fn lemma_stamped_accepted(m: EchoModel)
    ensures
        checksum_accepts(m.stamped().bytes()),
{
    let z = m.with_checksum(0).bytes();
    let s = m.stamped().bytes();
    let cs = internet_checksum(z);
    lemma_fold_carries(word_sum(z));
    assert(word_at(s, 1) == word_at(z, 1) + cs);
    assert forall|j: int| 0 <= j < word_count(z) && j != 1 implies word_at(z, j) == word_at(s, j) by {
        assert(z[2 * j] == s[2 * j]);
        if 2 * j + 1 < z.len() {
            assert(z[2 * j + 1] == s[2 * j + 1]);
        }
    }
    lemma_words_sum_delta(z, s, 1, cs as int, word_count(z));
    lemma_ones_add(word_sum(z), cs as nat);
    lemma_fold_carries(word_sum(s));
}

/// For every payload size, decoding an encoded Echo Request reproduces it, and
/// its serialised bytes pass the checksum check.
pub proof fn lemma_echo_request_round_trip(
    identifier: u16,
    sequence: u16,
    payload_size: nat,
    is_ipv6: bool,
)
    ensures
        ({
            let m = echo_request_model(identifier, sequence, payload_size, is_ipv6);
            &&& parse_message(m.bytes()) == m
            &&& m.identifier == identifier
            &&& m.sequence == sequence
            &&& m.icmp_type == request_type(is_ipv6)
            &&& m.code == 0
            &&& m.payload.len() == payload_size
            &&& checksum_accepts(m.bytes())
        }),
{
    let base = EchoModel {
        icmp_type: request_type(is_ipv6),
        code: 0,
        checksum: 0,
        identifier,
        sequence,
        payload: Seq::new(payload_size, |i: int| PAYLOAD_FILL),
    };
    lemma_parse_bytes(base.stamped());
    lemma_stamped_accepted(base);
}

/// Inverting any single bit of an encoded Echo Request makes the checksum
/// check fail, on the bytes and on the message decoded from them.
pub proof fn lemma_echo_request_bit_flip(
    identifier: u16,
    sequence: u16,
    payload_size: nat,
    is_ipv6: bool,
    pos: int,
    bit: u8,
)
    requires
        0 <= pos < 8 + payload_size,
        bit < 8,
    ensures
        ({
            let flipped = flip_bit(
                echo_request_model(identifier, sequence, payload_size, is_ipv6).bytes(),
                pos,
                bit,
            );
            &&& !checksum_accepts(flipped)
            &&& !checksum_accepts(parse_message(flipped).bytes())
        }),
{
    let m = echo_request_model(identifier, sequence, payload_size, is_ipv6);
    lemma_echo_request_round_trip(identifier, sequence, payload_size, is_ipv6);
    lemma_flip_detected(m.bytes(), pos, bit);
    lemma_bytes_parse(flip_bit(m.bytes(), pos, bit));
}

} // verus!
