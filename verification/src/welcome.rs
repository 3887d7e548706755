//! The packets by which clients make themselves known.

use crate::connection::ConnectionError;
use std::str::Utf8Error;
use vstd::prelude::*;
use vstd::slice::slice_subrange;
use vstd::utf8::{
    decode_first_scalar, decode_utf8, decode_utf8_split, encode_utf8, encode_utf8_decode_utf8,
    encode_utf8_valid_utf8, is_char_boundary, is_char_boundary_iff_not_is_continuation_byte,
    pop_first_scalar, valid_utf8, valid_utf8_concat,
};

verus! {

/// The size of a packet: the name of the protocol, padded to 16 bytes, its version in 8 bytes and
/// the host name of the client in 32 bytes.
pub const HANDSHAKE_PACKET_SIZE_BYTES: usize = 56;

/// `std::str::Utf8Error`. Why bytes are not text is only carried along.
#[verifier::external_type_specification]
#[verifier::external_body]
pub struct ExUtf8Error(Utf8Error);

/// `std::str::from_utf8`: bytes are text if they are valid UTF-8, and then the text that they
/// encode.
pub assume_specification[ std::str::from_utf8 ](bytes: &[u8]) -> (text: Result<&str, Utf8Error>)
    ensures
        match text {
            Ok(text) => valid_utf8(bytes@) && text@ == decode_utf8(bytes@),
            Err(_) => !valid_utf8(bytes@),
        },
;

/// Why a packet is not the handshake of a client that we can talk to.
#[derive(Debug)]
pub enum HandshakeError {
    /// The client uses another version of the protocol.
    Incompatible { found: u64 },
    /// The client is too old.
    OldClient,
    /// The packet means nothing to us.
    Unexpected,
    /// The host name is not text.
    Hostname(Utf8Error),
}

impl HandshakeError {
    /// Says what it means that a packet is not such a handshake: a host name that is not text is an
    /// error, which is given in words. Any other packet is passed over.
    pub fn meaning(&self, text: String) -> (meaning: ConnectionError)
        ensures
            match self {
                HandshakeError::Hostname(_) => meaning is Other && meaning->Other_0@ == text@,
                _ => meaning is Interrupted,
            },
    {
        match self {
            HandshakeError::Hostname(_) => ConnectionError::Other(text),
            _ => ConnectionError::Interrupted,
        }
    }
}

/// Why nothing was received.
#[derive(Debug)]
pub enum ReceiveError {
    /// Nothing has come in.
    WouldBlock,
    Interrupted,
    /// Anything else, in words.
    Other(String),
}

/// Says what it means that nothing was received. That nothing has come in, and that the call was
/// interrupted, is passed over. Anything else is an error.
pub fn receive_error(error: ReceiveError) -> (meaning: ConnectionError)
    ensures
        match error {
            ReceiveError::WouldBlock | ReceiveError::Interrupted => meaning is Interrupted,
            ReceiveError::Other(text) => meaning is Other && meaning->Other_0@ == text@,
        },
{
    match error {
        ReceiveError::WouldBlock | ReceiveError::Interrupted => ConnectionError::Interrupted,
        ReceiveError::Other(text) => ConnectionError::Other(text),
    }
}

/// The name of the protocol.
pub open spec fn protocol_name() -> Seq<u8> {
    seq![0x41u8, 0x4cu8, 0x56u8, 0x52u8]
}

/// A number that is stored with its lowest byte first.
pub open spec fn number_from_le(bytes: Seq<u8>) -> int {
    bytes[0] + bytes[1] * 0x100 + bytes[2] * 0x1_0000 + bytes[3] * 0x100_0000 + bytes[4]
        * 0x1_0000_0000 + bytes[5] * 0x100_0000_0000 + bytes[6] * 0x1_0000_0000_0000 + bytes[7]
        * 0x100_0000_0000_0000
}

/// A packet has the size of a handshake and begins with the padded name of the protocol.
pub open spec fn is_handshake(buffer: Seq<u8>, size: usize) -> bool {
    &&& size == HANDSHAKE_PACKET_SIZE_BYTES
    &&& buffer.take(4) == protocol_name()
    &&& forall|i: int| 4 <= i < 16 ==> #[trigger] buffer[i] == 0
}

/// The packet of a client that is too old.
pub open spec fn is_old_handshake(buffer: Seq<u8>) -> bool {
    ||| buffer.take(16) == seq![0u8, 0u8, 0u8, 0u8, 4u8, 0u8, 0u8, 0u8, 0u8, 0u8, 0u8, 0u8]
        + protocol_name()
    ||| buffer.take(5) == seq![1u8] + protocol_name()
}

/// The text without zeros at its end.
pub open spec fn trimmed(text: Seq<char>) -> Seq<char>
    decreases text.len(),
{
    if text.len() > 0 && text.last() == '\0' {
        trimmed(text.drop_last())
    } else {
        text
    }
}

/// The bytes of the host name.
pub open spec fn hostname_bytes(buffer: Seq<u8>) -> Seq<u8> {
    buffer.subrange(24, 56)
}

/// The version of the protocol that the client uses.
pub open spec fn received_protocol_id(buffer: Seq<u8>) -> int {
    number_from_le(buffer.subrange(16, 24))
}

/// A number that is stored with its lowest byte first.
fn read_number(bytes: &[u8], at: usize) -> (number: u64)
    requires
        at + 8 <= bytes@.len(),
    ensures
        number == number_from_le(bytes@.subrange(at as int, at + 8)),
{
    bytes[at] as u64 + bytes[at + 1] as u64 * 0x100 + bytes[at + 2] as u64 * 0x1_0000 + bytes[at
        + 3] as u64 * 0x100_0000 + bytes[at + 4] as u64 * 0x1_0000_0000 + bytes[at + 5] as u64
        * 0x100_0000_0000 + bytes[at + 6] as u64 * 0x1_0000_0000_0000 + bytes[at + 7] as u64
        * 0x100_0000_0000_0000
}

/// The text without zeros at its end.
fn trim_zeros(text: &str) -> (rest: String)
    ensures
        rest@ == trimmed(text@),
{
    let mut length: usize = text.unicode_len();
    assert(text@.take(length as int) =~= text@);
    while length > 0 && text.get_char(length - 1) == '\0'
        invariant
            length <= text@.len(),
            trimmed(text@.take(length as int)) == trimmed(text@),
        decreases length,
    {
        assert(text@.take(length as int).drop_last() =~= text@.take(length - 1));
        length -= 1;
    }
    assert(text@.take(length as int) =~= text@.subrange(0, length as int));
    text.substring_char(0, length).to_owned()
}

/// Tells whether the name of the protocol is found at a place.
fn has_protocol_name(buffer: &[u8], at: usize) -> (found: bool)
    requires
        at + 4 <= buffer@.len(),
    ensures
        found == (buffer@.subrange(at as int, at + 4) == protocol_name()),
{
    let found: bool = buffer[at] == 0x41 && buffer[at + 1] == 0x4c && buffer[at + 2] == 0x56
        && buffer[at + 3] == 0x52;
    proof {
        let bytes = buffer@.subrange(at as int, at + 4);
        if found {
            assert(bytes =~= protocol_name());
        } else if bytes == protocol_name() {
            assert(bytes[0] == 0x41 && bytes[1] == 0x4c && bytes[2] == 0x56 && bytes[3] == 0x52);
        }
    }
    found
}

/// Tells whether a part of a packet is all zeros.
fn is_zero(buffer: &[u8], from: usize, to: usize) -> (zero: bool)
    requires
        from <= to <= buffer@.len(),
    ensures
        zero == (forall|i: int| from <= i < to ==> #[trigger] buffer@[i] == 0),
{
    let mut i: usize = from;
    while i < to
        invariant
            from <= i <= to <= buffer@.len(),
            forall|j: int| from <= j < i ==> #[trigger] buffer@[j] == 0,
        decreases to - i,
    {
        if buffer[i] != 0 {
            return false;
        }
        i += 1;
    }
    true
}

/// Tells whether a packet comes from a client that is too old.
fn is_old(buffer: &[u8]) -> (old: bool)
    requires
        buffer@.len() == HANDSHAKE_PACKET_SIZE_BYTES,
    ensures
        old == is_old_handshake(buffer@),
{
    let first: bool = is_zero(buffer, 0, 4) && buffer[4] == 4 && is_zero(buffer, 5, 12)
        && has_protocol_name(buffer, 12);
    let second: bool = buffer[0] == 1 && has_protocol_name(buffer, 1);
    proof {
        let start = seq![0u8, 0u8, 0u8, 0u8, 4u8, 0u8, 0u8, 0u8, 0u8, 0u8, 0u8, 0u8];
        let bytes = buffer@.take(16);
        let name = buffer@.subrange(12, 16);
        if first {
            assert(bytes =~= start + name);
        } else if bytes == start + protocol_name() {
            assert(name =~= bytes.skip(12));
            assert(name =~= protocol_name());
            assert forall|i: int| 0 <= i < 12 implies #[trigger] buffer@[i] == start[i] by {
                assert(bytes[i] == buffer@[i]);
            }
        }
        let bytes = buffer@.take(5);
        let name = buffer@.subrange(1, 5);
        if second {
            assert(bytes =~= seq![1u8] + name);
        } else if bytes == seq![1u8] + protocol_name() {
            assert(name =~= bytes.skip(1));
            assert(name =~= protocol_name());
            assert(bytes[0] == buffer@[0]);
        }
    }
    first || second
}

/// Reads the host name of a client from a packet of that size. The buffer may hold more than the
/// packet.
pub fn parse_handshake(buffer: &[u8], size: usize, protocol_id: u64) -> (hostname: Result<
    String,
    HandshakeError,
>)
    requires
        buffer@.len() == HANDSHAKE_PACKET_SIZE_BYTES,
    ensures
        match hostname {
            Ok(hostname) => {
                &&& is_handshake(buffer@, size)
                &&& received_protocol_id(buffer@) == protocol_id
                &&& valid_utf8(hostname_bytes(buffer@))
                &&& hostname@ == trimmed(decode_utf8(hostname_bytes(buffer@)))
            },
            Err(HandshakeError::Incompatible { found }) => {
                &&& is_handshake(buffer@, size)
                &&& received_protocol_id(buffer@) == found
                &&& found != protocol_id
            },
            Err(HandshakeError::Hostname(_)) => {
                &&& is_handshake(buffer@, size)
                &&& received_protocol_id(buffer@) == protocol_id
                &&& !valid_utf8(hostname_bytes(buffer@))
            },
            Err(HandshakeError::OldClient) => {
                !is_handshake(buffer@, size) && is_old_handshake(buffer@)
            },
            Err(HandshakeError::Unexpected) => {
                !is_handshake(buffer@, size) && !is_old_handshake(buffer@)
            },
        },
{
    let named: bool = has_protocol_name(buffer, 0);
    assert(buffer@.subrange(0, 4) =~= buffer@.take(4));
    if size == HANDSHAKE_PACKET_SIZE_BYTES && named && is_zero(buffer, 4, 16) {
        let found: u64 = read_number(buffer, 16);
        if found != protocol_id {
            return Err(HandshakeError::Incompatible { found });
        }
        match std::str::from_utf8(slice_subrange(buffer, 24, 56)) {
            Ok(text) => Ok(trim_zeros(text)),
            Err(error) => Err(HandshakeError::Hostname(error)),
        }
    } else if is_old(buffer) {
        Err(HandshakeError::OldClient)
    } else {
        Err(HandshakeError::Unexpected)
    }
}

/// That many zeros.
pub open spec fn zeros(count: nat) -> Seq<u8> {
    Seq::new(count, |i: int| 0u8)
}

/// The packet of a client with that host name.
pub open spec fn handshake_packet(protocol_id: Seq<u8>, hostname: Seq<char>) -> Seq<u8> {
    let name = encode_utf8(hostname);
    protocol_name() + zeros(12) + protocol_id + name + zeros((32 - name.len()) as nat)
}

/// The host name that a client puts in its packet is the one that is read from it.
pub proof fn law_handshake_is_understood(protocol_id: Seq<u8>, hostname: Seq<char>)
    requires
        protocol_id.len() == 8,
        encode_utf8(hostname).len() <= 32,
        hostname.len() > 0 ==> hostname.last() != '\0',
    ensures
        handshake_packet(protocol_id, hostname).len() == HANDSHAKE_PACKET_SIZE_BYTES,
        is_handshake(
            handshake_packet(protocol_id, hostname),
            HANDSHAKE_PACKET_SIZE_BYTES,
        ),
        received_protocol_id(handshake_packet(protocol_id, hostname)) == number_from_le(
            protocol_id,
        ),
        valid_utf8(hostname_bytes(handshake_packet(protocol_id, hostname))),
        trimmed(decode_utf8(hostname_bytes(handshake_packet(protocol_id, hostname)))) == hostname,
{
    let name = encode_utf8(hostname);
    let packet = handshake_packet(protocol_id, hostname);
    let count = (32 - name.len()) as nat;
    assert(packet.take(4) =~= protocol_name());
    assert(packet.subrange(16, 24) =~= protocol_id);
    assert(hostname_bytes(packet) =~= name + zeros(count));
    encode_utf8_valid_utf8(hostname);
    encode_utf8_decode_utf8(hostname);
    lemma_zeros_are_text(count);
    valid_utf8_concat(name, zeros(count));
    let bytes = name + zeros(count);
    if count == 0 {
        assert(bytes =~= name);
        assert(decode_utf8(bytes) =~= hostname + decode_utf8(zeros(count)));
    } else {
        assert(bytes[name.len() as int] == 0u8);
        is_char_boundary_iff_not_is_continuation_byte(bytes, name.len() as int);
        assert(is_char_boundary(bytes, name.len() as int));
        decode_utf8_split(bytes, name.len() as int);
        assert(bytes.subrange(0, name.len() as int) =~= name);
        assert(bytes.subrange(name.len() as int, bytes.len() as int) =~= zeros(count));
    }
    lemma_zeros_are_trimmed(hostname, decode_utf8(zeros(count)));
}

/// Zeros are text that is all zeros.
proof fn lemma_zeros_are_text(count: nat)
    ensures
        valid_utf8(zeros(count)),
        decode_utf8(zeros(count)) == Seq::new(count, |i: int| '\0'),
    decreases count,
{
    let bytes = zeros(count);
    if count == 0 {
        assert(bytes =~= Seq::<u8>::empty());
        assert(decode_utf8(bytes) =~= Seq::new(count, |i: int| '\0'));
    } else {
        lemma_zeros_are_text((count - 1) as nat);
        assert(0u8 & 0x7f == 0u8) by (bit_vector);
        assert(decode_first_scalar(bytes) == 0);
        assert(pop_first_scalar(bytes) =~= zeros((count - 1) as nat));
        assert(decode_utf8(bytes) =~= Seq::new(count, |i: int| '\0'));
    }
}

/// Zeros at the end of a text are taken away.
proof fn lemma_zeros_are_trimmed(text: Seq<char>, end: Seq<char>)
    requires
        text.len() > 0 ==> text.last() != '\0',
        forall|i: int| 0 <= i < end.len() ==> #[trigger] end[i] == '\0',
    ensures
        trimmed(text + end) == text,
    decreases end.len(),
{
    if end.len() == 0 {
        assert(text + end =~= text);
    } else {
        assert((text + end).drop_last() =~= text + end.drop_last());
        assert((text + end).last() == end.last());
        lemma_zeros_are_trimmed(text, end.drop_last());
    }
}

/// A text that has been trimmed does not end with a zero, and only zeros were taken from its end.
pub proof fn law_only_zeros_are_trimmed(text: Seq<char>)
    ensures
        trimmed(text).is_prefix_of(text),
        trimmed(text).len() > 0 ==> trimmed(text).last() != '\0',
        forall|i: int| trimmed(text).len() <= i < text.len() ==> #[trigger] text[i] == '\0',
    decreases text.len(),
{
    if text.len() > 0 && text.last() == '\0' {
        let before = text.drop_last();
        law_only_zeros_are_trimmed(before);
        let rest = trimmed(text);
        assert(rest =~= text.subrange(0, rest.len() as int));
        assert forall|i: int| rest.len() <= i < text.len() implies #[trigger] text[i] == '\0' by {
            if i < before.len() {
                assert(before[i] == text[i]);
            }
        }
    } else {
        assert(text =~= text.subrange(0, text.len() as int));
    }
}

/// A number is read with its lowest byte first: a byte more at the end counts 256 times as much as
/// the one before it.
pub proof fn law_lowest_byte_comes_first(bytes: Seq<u8>)
    requires
        bytes.len() == 8,
    ensures
        number_from_le(bytes) == bytes[0] + 256 * (bytes[1] + 256 * (bytes[2] + 256 * (bytes[3]
            + 256 * (bytes[4] + 256 * (bytes[5] + 256 * (bytes[6] + 256 * bytes[7])))))),
        0 <= number_from_le(bytes) <= u64::MAX,
{
}

/// A handshake has 56 bytes: the letters `ALVR`, twelve zeros, the version of the protocol, and the
/// host name. Anything else is none.
pub proof fn law_handshake_has_its_form(buffer: Seq<u8>, size: usize)
    requires
        buffer.len() == 56,
    ensures
        is_handshake(buffer, size) <==> {
            &&& size == 56
            &&& buffer[0] == 65 && buffer[1] == 76 && buffer[2] == 86 && buffer[3] == 82
            &&& forall|i: int| 4 <= i < 16 ==> #[trigger] buffer[i] == 0
        },
        received_protocol_id(buffer) == number_from_le(buffer.skip(16).take(8)),
        hostname_bytes(buffer) == buffer.skip(24),
{
    let start = buffer.take(4);
    if start == protocol_name() {
        assert(start[0] == buffer[0] && start[1] == buffer[1] && start[2] == buffer[2] && start[3]
            == buffer[3]);
    }
    if buffer[0] == 65 && buffer[1] == 76 && buffer[2] == 86 && buffer[3] == 82 {
        assert(start =~= protocol_name());
    }
    assert(buffer.subrange(16, 24) =~= buffer.skip(16).take(8));
    assert(hostname_bytes(buffer) =~= buffer.skip(24));
}

/// The packets of clients that are too old, and no others, have the letters `ALVR` from the second
/// byte on, after a one, or from the thirteenth byte on, after zeros with a four in the fifth
/// place.
pub proof fn law_old_handshake_has_its_form(buffer: Seq<u8>)
    requires
        buffer.len() == 56,
    ensures
        is_old_handshake(buffer) <==> {
            ||| buffer[0] == 1 && buffer[1] == 65 && buffer[2] == 76 && buffer[3] == 86
                && buffer[4] == 82
            ||| {
                &&& buffer[0] == 0 && buffer[1] == 0 && buffer[2] == 0 && buffer[3] == 0
                &&& buffer[4] == 4
                &&& forall|i: int| 5 <= i < 12 ==> #[trigger] buffer[i] == 0
                &&& buffer[12] == 65 && buffer[13] == 76 && buffer[14] == 86 && buffer[15] == 82
            }
        },
{
    let start = seq![0u8, 0u8, 0u8, 0u8, 4u8, 0u8, 0u8, 0u8, 0u8, 0u8, 0u8, 0u8];
    let first = buffer.take(16);
    let second = buffer.take(5);
    if buffer[0] == 1 && buffer[1] == 65 && buffer[2] == 76 && buffer[3] == 86 && buffer[4] == 82 {
        assert(second =~= seq![1u8] + protocol_name());
    }
    if buffer[0] == 0 && buffer[1] == 0 && buffer[2] == 0 && buffer[3] == 0 && buffer[4] == 4 && (
    forall|i: int| 5 <= i < 12 ==> #[trigger] buffer[i] == 0) && buffer[12] == 65 && buffer[13]
        == 76 && buffer[14] == 86 && buffer[15] == 82 {
        assert(first =~= start + protocol_name());
    }
    if first == start + protocol_name() {
        assert forall|i: int| 0 <= i < 16 implies #[trigger] buffer[i] == (start
            + protocol_name())[i] by {
            assert(first[i] == buffer[i]);
        }
    }
    if second == seq![1u8] + protocol_name() {
        assert forall|i: int| 0 <= i < 5 implies #[trigger] buffer[i] == (seq![1u8]
            + protocol_name())[i] by {
            assert(second[i] == buffer[i]);
        }
    }
}

} // verus!
