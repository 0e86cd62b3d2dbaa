//! The wire format: how the four kinds of datagram are laid out, how they
//! are parsed, and the proof that parsing undoes encoding.
//!
//! Every datagram starts with a ten-byte header: the protocol version, the
//! session identifier of the recipient (zero in an initiation, which is sent
//! before the recipient has assigned one) and a type tag. Integers are
//! big-endian.

use vstd::prelude::*;
use vstd::slice::slice_subrange;
use vstd::slice::slice_to_vec;

use crate::error::Error;
use crate::primitives::HASH_SIZE;
use crate::primitives::PUBLIC_KEY_SIZE;
use crate::primitives::TAG_SIZE;

verus! {

/// The one protocol version this engine speaks.
pub const PROTOCOL_VERSION: u8 = 1;

/// The recipient identifier of an initiation.
pub const HANDSHAKE_MARKER: u64 = 0;

/// Type tag of a handshake initiation.
pub const TYPE_INIT: u8 = 1;

/// Type tag of a handshake response.
pub const TYPE_RESPONSE: u8 = 2;

/// Type tag of a handshake confirmation.
pub const TYPE_CONFIRM: u8 = 3;

/// Type tag of an application data fragment.
pub const TYPE_DATA: u8 = 4;

/// Type tag of a re-key request.
pub const TYPE_REKEY_INIT: u8 = 5;

/// Type tag of a re-key acknowledgement.
pub const TYPE_REKEY_ACK: u8 = 6;

/// Length of the header common to all datagrams.
pub const HEADER_SIZE: usize = 10;

/// Length of an initiation.
pub const INIT_SIZE: usize = 116;

/// Length of a response.
pub const RESPONSE_SIZE: usize = 115;

/// Length of a confirmation.
pub const CONFIRM_SIZE: usize = 58;

/// Length of the clear header of a protected datagram, which is also the
/// associated data of its ciphertext.
pub const PROTECTED_HEADER_SIZE: usize = 38;

/// Bytes that a protected datagram adds to the plaintext it carries.
pub const PROTECTED_OVERHEAD: usize = 54;

/// The eight bytes of `x`, most significant first.
#[verifier::opaque]
pub open spec fn spec_u64_be(x: u64) -> Seq<u8> {
    seq![
        ((x / 0x100_0000_0000_0000) % 256) as u8,
        ((x / 0x1_0000_0000_0000) % 256) as u8,
        ((x / 0x100_0000_0000) % 256) as u8,
        ((x / 0x1_0000_0000) % 256) as u8,
        ((x / 0x100_0000) % 256) as u8,
        ((x / 0x1_0000) % 256) as u8,
        ((x / 0x100) % 256) as u8,
        (x % 256) as u8,
    ]
}

/// The integer that eight big-endian bytes encode.
#[verifier::opaque]
pub open spec fn spec_be_u64(bytes: Seq<u8>) -> u64
    recommends
        bytes.len() == 8,
{
    (bytes[0] * 0x100_0000_0000_0000 + bytes[1] * 0x1_0000_0000_0000 + bytes[2] * 0x100_0000_0000
        + bytes[3] * 0x1_0000_0000 + bytes[4] * 0x100_0000 + bytes[5] * 0x1_0000 + bytes[6] * 0x100
        + bytes[7]) as u64
}

/// The two bytes of `x`, most significant first.
#[verifier::opaque]
pub open spec fn spec_u16_be(x: u16) -> Seq<u8> {
    seq![(x / 0x100) as u8, (x % 0x100) as u8]
}

/// The integer that two big-endian bytes encode.
#[verifier::opaque]
pub open spec fn spec_be_u16(bytes: Seq<u8>) -> u16
    recommends
        bytes.len() == 2,
{
    (bytes[0] * 0x100 + bytes[1]) as u16
}

/// Decoding undoes encoding, for both integer widths.
pub proof fn lemma_integer_round_trip(x: u64, y: u16)
    ensures
        spec_u64_be(x).len() == 8,
        spec_be_u64(spec_u64_be(x)) == x,
        spec_u16_be(y).len() == 2,
        spec_be_u16(spec_u16_be(y)) == y,
{
    reveal(spec_u64_be);
    reveal(spec_be_u64);
    reveal(spec_u16_be);
    reveal(spec_be_u16);
    assert(((x / 0x100_0000_0000_0000) % 256) * 0x100_0000_0000_0000 + ((x / 0x1_0000_0000_0000)
        % 256) * 0x1_0000_0000_0000 + ((x / 0x100_0000_0000) % 256) * 0x100_0000_0000 + ((x
        / 0x1_0000_0000) % 256) * 0x1_0000_0000 + ((x / 0x100_0000) % 256) * 0x100_0000 + ((x
        / 0x1_0000) % 256) * 0x1_0000 + ((x / 0x100) % 256) * 0x100 + (x % 256) == x)
        by (bit_vector);
    assert((y / 0x100) * 0x100 + (y % 0x100) == y && y / 0x100 < 0x100) by (bit_vector);
}

/// Encoding undoes decoding: a byte string is the encoding of the integer
/// it decodes to.
pub proof fn lemma_integer_bytes_round_trip(wide: Seq<u8>, narrow: Seq<u8>)
    requires
        wide.len() == 8,
        narrow.len() == 2,
    ensures
        spec_u64_be(spec_be_u64(wide)) == wide,
        spec_u16_be(spec_be_u16(narrow)) == narrow,
{
    reveal(spec_u64_be);
    reveal(spec_be_u64);
    reveal(spec_u16_be);
    reveal(spec_be_u16);
    let b0 = wide[0];
    let b1 = wide[1];
    let b2 = wide[2];
    let b3 = wide[3];
    let b4 = wide[4];
    let b5 = wide[5];
    let b6 = wide[6];
    let b7 = wide[7];
    let x: u64 = spec_be_u64(wide);
    assert(x == b0 * 0x100_0000_0000_0000 + b1 * 0x1_0000_0000_0000 + b2 * 0x100_0000_0000 + b3
        * 0x1_0000_0000 + b4 * 0x100_0000 + b5 * 0x1_0000 + b6 * 0x100 + b7);
    assert((x / 0x100_0000_0000_0000) % 256 == b0 && (x / 0x1_0000_0000_0000) % 256 == b1 && (x
        / 0x100_0000_0000) % 256 == b2 && (x / 0x1_0000_0000) % 256 == b3 && (x / 0x100_0000) % 256
        == b4 && (x / 0x1_0000) % 256 == b5 && (x / 0x100) % 256 == b6 && x % 256 == b7)
        by (bit_vector)
        requires
            x == b0 * 0x100_0000_0000_0000 + b1 * 0x1_0000_0000_0000 + b2 * 0x100_0000_0000 + b3
                * 0x1_0000_0000 + b4 * 0x100_0000 + b5 * 0x1_0000 + b6 * 0x100 + b7,
    ;
    assert(spec_u64_be(spec_be_u64(wide)) =~= wide);
    let c0 = narrow[0];
    let c1 = narrow[1];
    let y: u16 = spec_be_u16(narrow);
    assert(y == c0 * 0x100 + c1);
    assert(y / 0x100 == c0 && y % 0x100 == c1) by (bit_vector)
        requires
            y == c0 * 0x100 + c1,
    ;
    assert(spec_u16_be(spec_be_u16(narrow)) =~= narrow);
}

/// Appends `bytes` to `out`.
pub fn put_bytes(out: &mut Vec<u8>, bytes: &[u8])
    ensures
        final(out)@ == old(out)@ + bytes@,
{
    let mut i: usize = 0;
    while i < bytes.len()
        invariant
            i <= bytes@.len(),
            out@ == old(out)@ + bytes@.subrange(0, i as int),
        decreases bytes@.len() - i,
    {
        out.push(bytes[i]);
        assert(out@ =~= old(out)@ + bytes@.subrange(0, i + 1));
        i += 1;
    }
    assert(bytes@.subrange(0, i as int) =~= bytes@);
}

/// Appends the big-endian encoding of `x` to `out`.
pub fn put_u64(out: &mut Vec<u8>, x: u64)
    ensures
        final(out)@ == old(out)@ + spec_u64_be(x),
{
    out.push(((x / 0x100_0000_0000_0000) % 256) as u8);
    out.push(((x / 0x1_0000_0000_0000) % 256) as u8);
    out.push(((x / 0x100_0000_0000) % 256) as u8);
    out.push(((x / 0x1_0000_0000) % 256) as u8);
    out.push(((x / 0x100_0000) % 256) as u8);
    out.push(((x / 0x1_0000) % 256) as u8);
    out.push(((x / 0x100) % 256) as u8);
    out.push((x % 256) as u8);
    proof {
        reveal(spec_u64_be);
    }
    assert(out@ =~= old(out)@ + spec_u64_be(x));
}

/// Appends the big-endian encoding of `x` to `out`.
pub fn put_u16(out: &mut Vec<u8>, x: u16)
    ensures
        final(out)@ == old(out)@ + spec_u16_be(x),
{
    out.push((x / 0x100) as u8);
    out.push((x % 0x100) as u8);
    proof {
        reveal(spec_u16_be);
    }
    assert(out@ =~= old(out)@ + spec_u16_be(x));
}

/// Reads the big-endian integer at `data[at..at + 8]`.
pub fn read_u64(data: &[u8], at: usize) -> (x: u64)
    requires
        at + 8 <= data@.len(),
    ensures
        x == spec_be_u64(data@.subrange(at as int, at + 8)),
{
    let b0: u64 = data[at] as u64;
    let b1: u64 = data[at + 1] as u64;
    let b2: u64 = data[at + 2] as u64;
    let b3: u64 = data[at + 3] as u64;
    let b4: u64 = data[at + 4] as u64;
    let b5: u64 = data[at + 5] as u64;
    let b6: u64 = data[at + 6] as u64;
    let b7: u64 = data[at + 7] as u64;
    proof {
        reveal(spec_be_u64);
    }
    b0 * 0x100_0000_0000_0000 + b1 * 0x1_0000_0000_0000 + b2 * 0x100_0000_0000 + b3
        * 0x1_0000_0000 + b4 * 0x100_0000 + b5 * 0x1_0000 + b6 * 0x100 + b7
}

/// Reads the big-endian integer at `data[at..at + 2]`.
pub fn read_u16(data: &[u8], at: usize) -> (x: u16)
    requires
        at + 2 <= data@.len(),
    ensures
        x == spec_be_u16(data@.subrange(at as int, at + 2)),
{
    let b0: u16 = data[at] as u16;
    let b1: u16 = data[at + 1] as u16;
    proof {
        reveal(spec_be_u16);
    }
    b0 * 0x100 + b1
}

/// A copy of `data[from..to]`.
pub fn take_bytes(data: &[u8], from: usize, to: usize) -> (piece: Vec<u8>)
    requires
        from <= to <= data@.len(),
    ensures
        piece@ == data@.subrange(from as int, to as int),
{
    slice_to_vec(slice_subrange(data, from, to))
}

/// What a protected datagram carries under the session cipher.
#[derive(Clone, Copy, Debug, PartialEq, Eq, Structural)]
pub enum ProtectedKind {
    /// One fragment of an application message.
    Data,
    /// The first half of a re-key exchange: a fresh ephemeral public key.
    RekeyInit,
    /// The second half of a re-key exchange: the answering ephemeral public key.
    RekeyAck,
}

impl ProtectedKind {
    /// The type tag that stands for this kind on the wire.
    pub open spec fn spec_tag(self) -> u8 {
        match self {
            ProtectedKind::Data => TYPE_DATA,
            ProtectedKind::RekeyInit => TYPE_REKEY_INIT,
            ProtectedKind::RekeyAck => TYPE_REKEY_ACK,
        }
    }

    /// The kind that a type tag stands for, if it is one of the three.
    pub open spec fn spec_of_tag(tag: u8) -> Option<ProtectedKind> {
        if tag == TYPE_DATA {
            Some(ProtectedKind::Data)
        } else if tag == TYPE_REKEY_INIT {
            Some(ProtectedKind::RekeyInit)
        } else if tag == TYPE_REKEY_ACK {
            Some(ProtectedKind::RekeyAck)
        } else {
            None
        }
    }

    /// The type tag that stands for this kind on the wire.
    pub fn tag(self) -> (tag: u8)
        ensures
            tag == self.spec_tag(),
            Self::spec_of_tag(tag) == Some(self),
    {
        match self {
            ProtectedKind::Data => TYPE_DATA,
            ProtectedKind::RekeyInit => TYPE_REKEY_INIT,
            ProtectedKind::RekeyAck => TYPE_REKEY_ACK,
        }
    }

    /// The kind that a type tag stands for, if it is one of the three.
    pub fn of_tag(tag: u8) -> (kind: Option<ProtectedKind>)
        ensures
            kind == Self::spec_of_tag(tag),
    {
        if tag == TYPE_DATA {
            Some(ProtectedKind::Data)
        } else if tag == TYPE_REKEY_INIT {
            Some(ProtectedKind::RekeyInit)
        } else if tag == TYPE_REKEY_ACK {
            Some(ProtectedKind::RekeyAck)
        } else {
            None
        }
    }
}

/// The clear part of a protected datagram. Its encoding is the associated
/// data of the ciphertext that follows it, so every field is authenticated.
#[derive(Clone, Copy, Debug, PartialEq, Eq, Structural)]
pub struct ProtectedHeader {
    /// The session identifier that the recipient assigned.
    pub recipient_id: u64,
    /// What the ciphertext carries.
    pub kind: ProtectedKind,
    /// The key generation that the ciphertext was made under.
    pub generation: u64,
    /// The sender's counter: nonce input and replay window position.
    pub counter: u64,
    /// The message that a data fragment belongs to.
    pub message_id: u64,
    /// The position of a data fragment in its message.
    pub index: u16,
    /// The number of fragments in the message.
    pub count: u16,
}

impl ProtectedHeader {
    /// A header is well formed when it names a session and a fragment that
    /// lies within its message.
    pub open spec fn wf(self) -> bool {
        &&& self.recipient_id != HANDSHAKE_MARKER
        &&& self.index < self.count
    }

    /// The 38 bytes that encode the header.
    pub open spec fn spec_encode(self) -> Seq<u8> {
        spec_header(self.recipient_id, self.kind.spec_tag()) + spec_u64_be(self.generation)
            + spec_u64_be(self.counter) + spec_u64_be(self.message_id) + spec_u16_be(self.index)
            + spec_u16_be(self.count)
    }

    /// Encodes the header.
    pub fn encode(&self) -> (out: Vec<u8>)
        ensures
            out@ == self.spec_encode(),
            out@.len() == PROTECTED_HEADER_SIZE,
    {
        proof {
            lemma_encoded_lengths(0, 0, *self);
        }
        let mut out: Vec<u8> = Vec::new();
        put_header(&mut out, self.recipient_id, self.kind.tag());
        put_u64(&mut out, self.generation);
        put_u64(&mut out, self.counter);
        put_u64(&mut out, self.message_id);
        put_u16(&mut out, self.index);
        put_u16(&mut out, self.count);
        out
    }
}

/// The ten bytes common to all datagrams.
pub open spec fn spec_header(recipient_id: u64, tag: u8) -> Seq<u8> {
    seq![PROTOCOL_VERSION] + spec_u64_be(recipient_id) + seq![tag]
}

/// Appends the common header to `out`.
pub fn put_header(out: &mut Vec<u8>, recipient_id: u64, tag: u8)
    ensures
        final(out)@ == old(out)@ + spec_header(recipient_id, tag),
{
    out.push(PROTOCOL_VERSION);
    put_u64(out, recipient_id);
    out.push(tag);
    assert(out@ =~= old(out)@ + spec_header(recipient_id, tag));
}

/// A parsed datagram.
#[derive(Debug)]
pub enum Packet {
    /// Opens a handshake: the initiator's session identifier, its ephemeral
    /// public key and its long-term public key.
    Init { sender_id: u64, ephemeral: Vec<u8>, static_public: Vec<u8> },
    /// Answers an initiation: the responder's session identifier, its
    /// ephemeral public key and a tag over the transcript.
    Response { recipient_id: u64, sender_id: u64, ephemeral: Vec<u8>, tag: Vec<u8> },
    /// Completes a handshake: the initiator's tag over the transcript.
    Confirm { recipient_id: u64, tag: Vec<u8> },
    /// Anything sent under the session cipher.
    Protected { header: ProtectedHeader, sealed: Vec<u8> },
}

/// The mathematical content of a [`Packet`].
pub ghost enum PacketView {
    Init { sender_id: u64, ephemeral: Seq<u8>, static_public: Seq<u8> },
    Response { recipient_id: u64, sender_id: u64, ephemeral: Seq<u8>, tag: Seq<u8> },
    Confirm { recipient_id: u64, tag: Seq<u8> },
    Protected { header: ProtectedHeader, sealed: Seq<u8> },
}

impl View for Packet {
    type V = PacketView;

    open spec fn view(&self) -> PacketView {
        match self {
            Packet::Init { sender_id, ephemeral, static_public } => PacketView::Init {
                sender_id: *sender_id,
                ephemeral: ephemeral@,
                static_public: static_public@,
            },
            Packet::Response { recipient_id, sender_id, ephemeral, tag } => PacketView::Response {
                recipient_id: *recipient_id,
                sender_id: *sender_id,
                ephemeral: ephemeral@,
                tag: tag@,
            },
            Packet::Confirm { recipient_id, tag } => PacketView::Confirm {
                recipient_id: *recipient_id,
                tag: tag@,
            },
            Packet::Protected { header, sealed } => PacketView::Protected {
                header: *header,
                sealed: sealed@,
            },
        }
    }
}

impl PacketView {
    /// A packet is well formed when its fields have the lengths that the
    /// layout fixes and its identifiers are not the handshake marker.
    pub open spec fn wf(self) -> bool {
        match self {
            PacketView::Init { sender_id, ephemeral, static_public } => {
                &&& sender_id != HANDSHAKE_MARKER
                &&& ephemeral.len() == PUBLIC_KEY_SIZE
                &&& static_public.len() == PUBLIC_KEY_SIZE
            },
            PacketView::Response { recipient_id, sender_id, ephemeral, tag } => {
                &&& recipient_id != HANDSHAKE_MARKER
                &&& sender_id != HANDSHAKE_MARKER
                &&& ephemeral.len() == PUBLIC_KEY_SIZE
                &&& tag.len() == HASH_SIZE
            },
            PacketView::Confirm { recipient_id, tag } => {
                &&& recipient_id != HANDSHAKE_MARKER
                &&& tag.len() == HASH_SIZE
            },
            PacketView::Protected { header, sealed } => {
                &&& header.wf()
                &&& sealed.len() >= TAG_SIZE
            },
        }
    }

    /// The bytes that stand for the packet on the wire.
    pub open spec fn spec_encode(self) -> Seq<u8> {
        match self {
            PacketView::Init { sender_id, ephemeral, static_public } => spec_encode_init(
                sender_id,
                ephemeral,
                static_public,
            ),
            PacketView::Response { recipient_id, sender_id, ephemeral, tag } => spec_encode_response(
                recipient_id,
                sender_id,
                ephemeral,
                tag,
            ),
            PacketView::Confirm { recipient_id, tag } => spec_encode_confirm(recipient_id, tag),
            PacketView::Protected { header, sealed } => header.spec_encode() + sealed,
        }
    }
}

/// The bytes of an initiation.
pub open spec fn spec_encode_init(sender_id: u64, ephemeral: Seq<u8>, static_public: Seq<u8>) -> Seq<
    u8,
> {
    spec_header(HANDSHAKE_MARKER, TYPE_INIT) + spec_u64_be(sender_id) + ephemeral + static_public
}

/// The bytes of a response up to, and without, its tag: what the tag binds.
pub open spec fn spec_encode_response_body(recipient_id: u64, sender_id: u64, ephemeral: Seq<u8>) -> Seq<
    u8,
> {
    spec_header(recipient_id, TYPE_RESPONSE) + spec_u64_be(sender_id) + ephemeral
}

/// The bytes of a response.
pub open spec fn spec_encode_response(
    recipient_id: u64,
    sender_id: u64,
    ephemeral: Seq<u8>,
    tag: Seq<u8>,
) -> Seq<u8> {
    spec_encode_response_body(recipient_id, sender_id, ephemeral) + tag
}

/// The bytes of a confirmation.
pub open spec fn spec_encode_confirm(recipient_id: u64, tag: Seq<u8>) -> Seq<u8> {
    spec_header(recipient_id, TYPE_CONFIRM) + tag
}

/// What [`parse`] makes of a datagram: the packet it encodes, or the reason
/// why it encodes none. The version byte is judged first, so a datagram of
/// another protocol version is reported as such whatever else it holds.
pub open spec fn spec_parse(data: Seq<u8>) -> Result<PacketView, Error> {
    if data.len() == 0 {
        Err(Error::MalformedPacket)
    } else if data[0] != PROTOCOL_VERSION {
        Err(Error::UnknownProtocolVersion)
    } else if data.len() < HEADER_SIZE {
        Err(Error::MalformedPacket)
    } else {
        let recipient_id = spec_be_u64(data.subrange(1, 9));
        let tag = data[9];
        if tag == TYPE_INIT {
            let packet = PacketView::Init {
                sender_id: spec_be_u64(data.subrange(10, 18)),
                ephemeral: data.subrange(18, 67),
                static_public: data.subrange(67, 116),
            };
            if data.len() == INIT_SIZE && recipient_id == HANDSHAKE_MARKER && packet.wf() {
                Ok(packet)
            } else {
                Err(Error::MalformedPacket)
            }
        } else if tag == TYPE_RESPONSE {
            let packet = PacketView::Response {
                recipient_id,
                sender_id: spec_be_u64(data.subrange(10, 18)),
                ephemeral: data.subrange(18, 67),
                tag: data.subrange(67, 115),
            };
            if data.len() == RESPONSE_SIZE && packet.wf() {
                Ok(packet)
            } else {
                Err(Error::MalformedPacket)
            }
        } else if tag == TYPE_CONFIRM {
            let packet = PacketView::Confirm { recipient_id, tag: data.subrange(10, 58) };
            if data.len() == CONFIRM_SIZE && packet.wf() {
                Ok(packet)
            } else {
                Err(Error::MalformedPacket)
            }
        } else {
            match ProtectedKind::spec_of_tag(tag) {
                Some(kind) => {
                    let packet = PacketView::Protected {
                        header: ProtectedHeader {
                            recipient_id,
                            kind,
                            generation: spec_be_u64(data.subrange(10, 18)),
                            counter: spec_be_u64(data.subrange(18, 26)),
                            message_id: spec_be_u64(data.subrange(26, 34)),
                            index: spec_be_u16(data.subrange(34, 36)),
                            count: spec_be_u16(data.subrange(36, 38)),
                        },
                        sealed: data.subrange(38, data.len() as int),
                    };
                    if data.len() >= PROTECTED_OVERHEAD && packet.wf() {
                        Ok(packet)
                    } else {
                        Err(Error::MalformedPacket)
                    }
                },
                None => Err(Error::MalformedPacket),
            }
        }
    }
}

/// The view of a parse result.
pub open spec fn parsed_view(parsed: Result<Packet, Error>) -> Result<PacketView, Error> {
    match parsed {
        Ok(p) => Ok(p@),
        Err(e) => Err(e),
    }
}

/// Parses a datagram. Fails with `UnknownProtocolVersion` where the first
/// byte is not the version this engine speaks, and with `MalformedPacket`
/// where the rest is not the layout of one of the packet types.
pub fn parse(data: &[u8]) -> (parsed: Result<Packet, Error>)
    ensures
        parsed_view(parsed) == spec_parse(data@),
        parsed matches Ok(p) ==> p@.wf(),
{
    let len = data.len();
    if len == 0 {
        return Err(Error::MalformedPacket);
    }
    if data[0] != PROTOCOL_VERSION {
        return Err(Error::UnknownProtocolVersion);
    }
    if len < HEADER_SIZE {
        return Err(Error::MalformedPacket);
    }
    let recipient_id = read_u64(data, 1);
    let tag = data[9];
    if tag == TYPE_INIT {
        if len != INIT_SIZE || recipient_id != HANDSHAKE_MARKER {
            return Err(Error::MalformedPacket);
        }
        let sender_id = read_u64(data, 10);
        if sender_id == HANDSHAKE_MARKER {
            return Err(Error::MalformedPacket);
        }
        Ok(
            Packet::Init {
                sender_id,
                ephemeral: take_bytes(data, 18, 67),
                static_public: take_bytes(data, 67, 116),
            },
        )
    } else if tag == TYPE_RESPONSE {
        if len != RESPONSE_SIZE || recipient_id == HANDSHAKE_MARKER {
            return Err(Error::MalformedPacket);
        }
        let sender_id = read_u64(data, 10);
        if sender_id == HANDSHAKE_MARKER {
            return Err(Error::MalformedPacket);
        }
        Ok(
            Packet::Response {
                recipient_id,
                sender_id,
                ephemeral: take_bytes(data, 18, 67),
                tag: take_bytes(data, 67, 115),
            },
        )
    } else if tag == TYPE_CONFIRM {
        if len != CONFIRM_SIZE || recipient_id == HANDSHAKE_MARKER {
            return Err(Error::MalformedPacket);
        }
        Ok(Packet::Confirm { recipient_id, tag: take_bytes(data, 10, 58) })
    } else {
        match ProtectedKind::of_tag(tag) {
            Some(kind) => {
                if len < PROTECTED_OVERHEAD || recipient_id == HANDSHAKE_MARKER {
                    return Err(Error::MalformedPacket);
                }
                let header = ProtectedHeader {
                    recipient_id,
                    kind,
                    generation: read_u64(data, 10),
                    counter: read_u64(data, 18),
                    message_id: read_u64(data, 26),
                    index: read_u16(data, 34),
                    count: read_u16(data, 36),
                };
                if header.index >= header.count {
                    return Err(Error::MalformedPacket);
                }
                Ok(Packet::Protected { header, sealed: take_bytes(data, 38, len) })
            },
            None => Err(Error::MalformedPacket),
        }
    }
}

/// Encodes a packet.
pub fn encode(packet: &Packet) -> (out: Vec<u8>)
    ensures
        out@ == packet@.spec_encode(),
{
    let mut out: Vec<u8> = Vec::new();
    match packet {
        Packet::Init { sender_id, ephemeral, static_public } => {
            put_header(&mut out, HANDSHAKE_MARKER, TYPE_INIT);
            put_u64(&mut out, *sender_id);
            put_bytes(&mut out, ephemeral.as_slice());
            put_bytes(&mut out, static_public.as_slice());
        },
        Packet::Response { recipient_id, sender_id, ephemeral, tag } => {
            put_header(&mut out, *recipient_id, TYPE_RESPONSE);
            put_u64(&mut out, *sender_id);
            put_bytes(&mut out, ephemeral.as_slice());
            put_bytes(&mut out, tag.as_slice());
        },
        Packet::Confirm { recipient_id, tag } => {
            put_header(&mut out, *recipient_id, TYPE_CONFIRM);
            put_bytes(&mut out, tag.as_slice());
        },
        Packet::Protected { header, sealed } => {
            out = header.encode();
            put_bytes(&mut out, sealed.as_slice());
        },
    }
    out
}

/// The lengths of the fixed parts of the layout.
pub proof fn lemma_encoded_lengths(recipient_id: u64, tag: u8, header: ProtectedHeader)
    ensures
        forall|x: u64| (#[trigger] spec_u64_be(x)).len() == 8,
        forall|y: u16| (#[trigger] spec_u16_be(y)).len() == 2,
        spec_header(recipient_id, tag).len() == HEADER_SIZE,
        spec_header(recipient_id, tag)[0] == PROTOCOL_VERSION,
        spec_header(recipient_id, tag).subrange(1, 9) == spec_u64_be(recipient_id),
        spec_header(recipient_id, tag)[9] == tag,
        header.spec_encode().len() == PROTECTED_HEADER_SIZE,
        header.spec_encode().subrange(0, 10) == spec_header(
            header.recipient_id,
            header.kind.spec_tag(),
        ),
{
    assert forall|x: u64| (#[trigger] spec_u64_be(x)).len() == 8 by {
        lemma_integer_round_trip(x, 0);
    }
    assert forall|y: u16| (#[trigger] spec_u16_be(y)).len() == 2 by {
        lemma_integer_round_trip(0, y);
    }
    assert(spec_header(recipient_id, tag).subrange(1, 9) =~= spec_u64_be(recipient_id));
    assert(header.spec_encode().subrange(0, 10) =~= spec_header(
        header.recipient_id,
        header.kind.spec_tag(),
    ));
}

/// Parsing undoes encoding: every well-formed packet is recovered from its
/// bytes, so no two well-formed packets share an encoding.
pub proof fn lemma_parse_encode(packet: PacketView)
    requires
        packet.wf(),
    ensures
        spec_parse(packet.spec_encode()) == Ok::<_, Error>(packet),
{
    let data = packet.spec_encode();
    match packet {
        PacketView::Init { sender_id, ephemeral, static_public } => {
            lemma_encoded_lengths(HANDSHAKE_MARKER, TYPE_INIT, arbitrary());
            lemma_integer_round_trip(HANDSHAKE_MARKER, 0);
            lemma_integer_round_trip(sender_id, 0);
            assert(data.subrange(1, 9) =~= spec_u64_be(HANDSHAKE_MARKER));
            assert(data.subrange(10, 18) =~= spec_u64_be(sender_id));
            assert(data.subrange(18, 67) =~= ephemeral);
            assert(data.subrange(67, 116) =~= static_public);
        },
        PacketView::Response { recipient_id, sender_id, ephemeral, tag } => {
            lemma_encoded_lengths(recipient_id, TYPE_RESPONSE, arbitrary());
            lemma_integer_round_trip(recipient_id, 0);
            lemma_integer_round_trip(sender_id, 0);
            assert(data.subrange(1, 9) =~= spec_u64_be(recipient_id));
            assert(data.subrange(10, 18) =~= spec_u64_be(sender_id));
            assert(data.subrange(18, 67) =~= ephemeral);
            assert(data.subrange(67, 115) =~= tag);
        },
        PacketView::Confirm { recipient_id, tag } => {
            lemma_encoded_lengths(recipient_id, TYPE_CONFIRM, arbitrary());
            lemma_integer_round_trip(recipient_id, 0);
            assert(data.subrange(1, 9) =~= spec_u64_be(recipient_id));
            assert(data.subrange(10, 58) =~= tag);
        },
        PacketView::Protected { header, sealed } => {
            lemma_encoded_lengths(header.recipient_id, header.kind.spec_tag(), header);
            lemma_integer_round_trip(header.recipient_id, header.index);
            lemma_integer_round_trip(header.generation, header.count);
            lemma_integer_round_trip(header.counter, 0);
            lemma_integer_round_trip(header.message_id, 0);
            assert(data.subrange(1, 9) =~= spec_u64_be(header.recipient_id));
            assert(data.subrange(10, 18) =~= spec_u64_be(header.generation));
            assert(data.subrange(18, 26) =~= spec_u64_be(header.counter));
            assert(data.subrange(26, 34) =~= spec_u64_be(header.message_id));
            assert(data.subrange(34, 36) =~= spec_u16_be(header.index));
            assert(data.subrange(36, 38) =~= spec_u16_be(header.count));
            assert(data.subrange(38, data.len() as int) =~= sealed);
            assert(ProtectedKind::spec_of_tag(header.kind.spec_tag()) == Some(header.kind));
        },
    }
}

} // verus!
