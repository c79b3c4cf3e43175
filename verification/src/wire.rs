//! Wire layout of session packets.
//!
//! Every payload sent over an active session is one packet: a one-byte tag,
//! the sender's 8-byte big-endian send counter, a 2-byte big-endian length of
//! the associated-data region, the associated data itself (the tag and the
//! counter again, binding the header to the ciphertext), and the ciphertext.
//! This module also carries the big-endian integer codecs and the
//! length-prefixed payload records for file transfer.

use vstd::prelude::*;
use vstd::string::StringSliceAdditionalSpecFns;

verus! {

/// Big-endian bytes of a 16-bit integer.
pub open spec fn u16_be_bytes(x: u16) -> Seq<u8> {
    seq![((x >> 8) & 0xff) as u8, (x & 0xff) as u8]
}

/// The 16-bit integer read from two big-endian bytes.
pub open spec fn u16_from_be_bytes(s: Seq<u8>) -> u16
    recommends
        s.len() == 2,
{
    (s[0] as u16) << 8 | (s[1] as u16)
}

/// Big-endian bytes of a 64-bit integer.
pub open spec fn u64_be_bytes(x: u64) -> Seq<u8> {
    seq![
        ((x >> 56) & 0xff) as u8,
        ((x >> 48) & 0xff) as u8,
        ((x >> 40) & 0xff) as u8,
        ((x >> 32) & 0xff) as u8,
        ((x >> 24) & 0xff) as u8,
        ((x >> 16) & 0xff) as u8,
        ((x >> 8) & 0xff) as u8,
        (x & 0xff) as u8,
    ]
}

/// The 64-bit integer read from eight big-endian bytes.
pub open spec fn u64_from_be_bytes(s: Seq<u8>) -> u64
    recommends
        s.len() == 8,
{
    (s[0] as u64) << 56 | (s[1] as u64) << 48 | (s[2] as u64) << 40 | (s[3] as u64) << 32 | (
    s[4] as u64) << 24 | (s[5] as u64) << 16 | (s[6] as u64) << 8 | (s[7] as u64)
}

/// Reading back the big-endian bytes of a 16-bit integer gives the integer.
pub proof fn lemma_u16_be_round_trip(x: u16)
    ensures
        u16_from_be_bytes(u16_be_bytes(x)) == x,
{
    assert((((((x >> 8) & 0xff) as u8) as u16) << 8 | (((x & 0xff) as u8) as u16)) == x)
        by (bit_vector);
}

/// Writing back the 16-bit integer read from two bytes gives the bytes.
pub proof fn lemma_u16_be_bytes_of_read(s: Seq<u8>)
    requires
        s.len() == 2,
    ensures
        u16_be_bytes(u16_from_be_bytes(s)) =~= s,
{
    let b0 = s[0];
    let b1 = s[1];
    let x = u16_from_be_bytes(s);
    assert(x == (b0 as u16) << 8 | (b1 as u16));
    assert((((b0 as u16) << 8 | (b1 as u16)) >> 8) & 0xff == b0 as u16) by (bit_vector);
    assert(((b0 as u16) << 8 | (b1 as u16)) & 0xff == b1 as u16) by (bit_vector);
}

/// Reading back the big-endian bytes of a 64-bit integer gives the integer.
pub proof fn lemma_u64_be_round_trip(x: u64)
    ensures
        u64_from_be_bytes(u64_be_bytes(x)) == x,
{
    assert(((((x >> 56) & 0xff) as u8) as u64) << 56 | ((((x >> 48) & 0xff) as u8) as u64) << 48
        | ((((x >> 40) & 0xff) as u8) as u64) << 40 | ((((x >> 32) & 0xff) as u8) as u64) << 32
        | ((((x >> 24) & 0xff) as u8) as u64) << 24 | ((((x >> 16) & 0xff) as u8) as u64) << 16
        | ((((x >> 8) & 0xff) as u8) as u64) << 8 | (((x & 0xff) as u8) as u64) == x)
        by (bit_vector);
}

/// Writing back the 64-bit integer read from eight bytes gives the bytes.
pub proof fn lemma_u64_be_bytes_of_read(s: Seq<u8>)
    requires
        s.len() == 8,
    ensures
        u64_be_bytes(u64_from_be_bytes(s)) =~= s,
{
    let b0 = s[0];
    let b1 = s[1];
    let b2 = s[2];
    let b3 = s[3];
    let b4 = s[4];
    let b5 = s[5];
    let b6 = s[6];
    let b7 = s[7];
    let x = u64_from_be_bytes(s);
    assert(x == (b0 as u64) << 56 | (b1 as u64) << 48 | (b2 as u64) << 40 | (b3 as u64) << 32 | (
    b4 as u64) << 24 | (b5 as u64) << 16 | (b6 as u64) << 8 | (b7 as u64));
    assert((((b0 as u64) << 56 | (b1 as u64) << 48 | (b2 as u64) << 40 | (b3 as u64) << 32 | (
    b4 as u64) << 24 | (b5 as u64) << 16 | (b6 as u64) << 8 | (b7 as u64)) >> 56) & 0xff
        == b0 as u64) by (bit_vector);
    assert((((b0 as u64) << 56 | (b1 as u64) << 48 | (b2 as u64) << 40 | (b3 as u64) << 32 | (
    b4 as u64) << 24 | (b5 as u64) << 16 | (b6 as u64) << 8 | (b7 as u64)) >> 48) & 0xff
        == b1 as u64) by (bit_vector);
    assert((((b0 as u64) << 56 | (b1 as u64) << 48 | (b2 as u64) << 40 | (b3 as u64) << 32 | (
    b4 as u64) << 24 | (b5 as u64) << 16 | (b6 as u64) << 8 | (b7 as u64)) >> 40) & 0xff
        == b2 as u64) by (bit_vector);
    assert((((b0 as u64) << 56 | (b1 as u64) << 48 | (b2 as u64) << 40 | (b3 as u64) << 32 | (
    b4 as u64) << 24 | (b5 as u64) << 16 | (b6 as u64) << 8 | (b7 as u64)) >> 32) & 0xff
        == b3 as u64) by (bit_vector);
    assert((((b0 as u64) << 56 | (b1 as u64) << 48 | (b2 as u64) << 40 | (b3 as u64) << 32 | (
    b4 as u64) << 24 | (b5 as u64) << 16 | (b6 as u64) << 8 | (b7 as u64)) >> 24) & 0xff
        == b4 as u64) by (bit_vector);
    assert((((b0 as u64) << 56 | (b1 as u64) << 48 | (b2 as u64) << 40 | (b3 as u64) << 32 | (
    b4 as u64) << 24 | (b5 as u64) << 16 | (b6 as u64) << 8 | (b7 as u64)) >> 16) & 0xff
        == b5 as u64) by (bit_vector);
    assert((((b0 as u64) << 56 | (b1 as u64) << 48 | (b2 as u64) << 40 | (b3 as u64) << 32 | (
    b4 as u64) << 24 | (b5 as u64) << 16 | (b6 as u64) << 8 | (b7 as u64)) >> 8) & 0xff
        == b6 as u64) by (bit_vector);
    assert(((b0 as u64) << 56 | (b1 as u64) << 48 | (b2 as u64) << 40 | (b3 as u64) << 32 | (
    b4 as u64) << 24 | (b5 as u64) << 16 | (b6 as u64) << 8 | (b7 as u64)) & 0xff
        == b7 as u64) by (bit_vector);
}

/// Copies a byte vector.
pub fn clone_bytes(v: &Vec<u8>) -> (r: Vec<u8>)
    ensures
        r@ == v@,
{
    let mut out: Vec<u8> = Vec::new();
    let n = v.len();
    for i in 0..n
        invariant
            n == v@.len(),
            out@ =~= v@.take(i as int),
    {
        out.push(v[i]);
        proof {
            assert(out@ =~= v@.take(i + 1));
        }
    }
    proof {
        assert(v@.take(n as int) =~= v@);
    }
    out
}

/// Compares two byte strings.
pub fn bytes_eq(a: &[u8], b: &[u8]) -> (r: bool)
    ensures
        r == (a@ == b@),
{
    let n = a.len();
    if n != b.len() {
        return false;
    }
    for i in 0..n
        invariant
            n == a@.len(),
            n == b@.len(),
            forall|j: int| 0 <= j < i ==> a@[j] == #[trigger] b@[j],
    {
        if a[i] != b[i] {
            return false;
        }
    }
    proof {
        assert(a@ =~= b@);
    }
    true
}

/// Compares two strings.
pub fn str_eq(a: &str, b: &str) -> (r: bool)
    ensures
        r == (a@ == b@),
{
    broadcast use vstd::utf8::encode_utf8_decode_utf8;

    let r = bytes_eq(a.as_bytes(), b.as_bytes());
    proof {
        if a.spec_bytes() == b.spec_bytes() {
            assert(vstd::utf8::decode_utf8(vstd::utf8::encode_utf8(a@)) == vstd::utf8::decode_utf8(
                vstd::utf8::encode_utf8(b@),
            ));
        }
    }
    r
}

/// Appends a byte slice onto a vector.
pub fn append_bytes(out: &mut Vec<u8>, data: &[u8])
    ensures
        final(out)@ == old(out)@ + data@,
{
    let n = data.len();
    for i in 0..n
        invariant
            n == data@.len(),
            out@ =~= old(out)@ + data@.take(i as int),
    {
        out.push(data[i]);
        proof {
            assert(out@ =~= old(out)@ + data@.take(i + 1));
        }
    }
    proof {
        assert(old(out)@ + data@.take(n as int) =~= old(out)@ + data@);
    }
}

/// Writes a 16-bit integer as two big-endian bytes.
pub fn u16_to_be(x: u16) -> (r: Vec<u8>)
    ensures
        r@ == u16_be_bytes(x),
{
    let mut v: Vec<u8> = Vec::new();
    v.push(((x >> 8) & 0xff) as u8);
    v.push((x & 0xff) as u8);
    proof {
        assert(v@ =~= u16_be_bytes(x));
    }
    v
}

/// Reads a 16-bit integer from two big-endian bytes.
pub fn u16_from_be(b: &[u8]) -> (x: u16)
    requires
        b@.len() == 2,
    ensures
        x == u16_from_be_bytes(b@),
{
    (b[0] as u16) << 8 | (b[1] as u16)
}

/// Writes a 64-bit integer as eight big-endian bytes.
pub fn u64_to_be(x: u64) -> (r: Vec<u8>)
    ensures
        r@ == u64_be_bytes(x),
{
    let mut v: Vec<u8> = Vec::new();
    v.push(((x >> 56) & 0xff) as u8);
    v.push(((x >> 48) & 0xff) as u8);
    v.push(((x >> 40) & 0xff) as u8);
    v.push(((x >> 32) & 0xff) as u8);
    v.push(((x >> 24) & 0xff) as u8);
    v.push(((x >> 16) & 0xff) as u8);
    v.push(((x >> 8) & 0xff) as u8);
    v.push((x & 0xff) as u8);
    proof {
        assert(v@ =~= u64_be_bytes(x));
    }
    v
}

/// Reads a 64-bit integer from eight big-endian bytes.
pub fn u64_from_be(b: &[u8]) -> (x: u64)
    requires
        b@.len() == 8,
    ensures
        x == u64_from_be_bytes(b@),
{
    (b[0] as u64) << 56 | (b[1] as u64) << 48 | (b[2] as u64) << 40 | (b[3] as u64) << 32 | (
    b[4] as u64) << 24 | (b[5] as u64) << 16 | (b[6] as u64) << 8 | (b[7] as u64)
}

/// The kind of a session packet, carried in its one-byte tag.
#[derive(Debug, Clone, Copy, PartialEq, Eq, Structural)]
pub enum PacketKind {
    /// A chat message (tag 1).
    Message,
    /// A file chunk (tag 2).
    FileChunk,
    /// A file-transfer header (tag 3).
    FileHeader,
    /// A file-transfer acknowledgement (tag 4).
    FileAck,
}

impl PacketKind {
    /// The tag byte of this packet kind.
    pub open spec fn byte_spec(self) -> u8 {
        match self {
            PacketKind::Message => 1,
            PacketKind::FileChunk => 2,
            PacketKind::FileHeader => 3,
            PacketKind::FileAck => 4,
        }
    }

    /// The packet kind a tag byte stands for, if any.
    pub open spec fn kind_of_byte(b: u8) -> Option<PacketKind> {
        if b == 1 {
            Some(PacketKind::Message)
        } else if b == 2 {
            Some(PacketKind::FileChunk)
        } else if b == 3 {
            Some(PacketKind::FileHeader)
        } else if b == 4 {
            Some(PacketKind::FileAck)
        } else {
            None
        }
    }

    /// The tag byte of this packet kind.
    pub fn byte(&self) -> (b: u8)
        ensures
            b == self.byte_spec(),
    {
        match self {
            PacketKind::Message => 1,
            PacketKind::FileChunk => 2,
            PacketKind::FileHeader => 3,
            PacketKind::FileAck => 4,
        }
    }

    /// Reads a packet kind from a tag byte; exactly the bytes 1 through 4
    /// are kinds.
    pub fn from_byte(b: u8) -> (r: Option<PacketKind>)
        ensures
            r == Self::kind_of_byte(b),
    {
        if b == 1 {
            Some(PacketKind::Message)
        } else if b == 2 {
            Some(PacketKind::FileChunk)
        } else if b == 3 {
            Some(PacketKind::FileHeader)
        } else if b == 4 {
            Some(PacketKind::FileAck)
        } else {
            None
        }
    }
}

/// Byte width of a frame's associated-data region: the tag and the counter.
pub const FRAME_AAD_LEN: usize = 9;

/// Byte width of everything in a frame before the ciphertext.
pub const FRAME_PREFIX_LEN: usize = 20;

/// The associated data of a frame: its tag byte followed by its counter.
pub open spec fn frame_aad(kind: PacketKind, counter: u64) -> Seq<u8> {
    seq![kind.byte_spec()] + u64_be_bytes(counter)
}

/// The full wire bytes of a frame: tag, counter, associated-data length,
/// associated data (tag and counter again), then the ciphertext.
pub open spec fn frame_bytes(kind: PacketKind, counter: u64, ciphertext: Seq<u8>) -> Seq<u8> {
    frame_aad(kind, counter) + u16_be_bytes(FRAME_AAD_LEN as u16) + frame_aad(kind, counter)
        + ciphertext
}

/// A decoded session frame.
pub struct Frame {
    /// What the packet carries.
    pub kind: PacketKind,
    /// The sender's per-session send counter for this packet.
    pub counter: u64,
    /// The AES-256-GCM output, tag included.
    pub ciphertext: Vec<u8>,
}

/// Encodes a frame: its bytes are exactly [`frame_bytes`] of its parts.
pub fn encode_frame(kind: PacketKind, counter: u64, ciphertext: &[u8]) -> (r: Vec<u8>)
    ensures
        r@ == frame_bytes(kind, counter, ciphertext@),
        r@.len() == FRAME_PREFIX_LEN + ciphertext@.len(),
{
    let mut out: Vec<u8> = Vec::new();
    out.push(kind.byte());
    let ctr = u64_to_be(counter);
    append_bytes(&mut out, ctr.as_slice());
    let alen = u16_to_be(9);
    append_bytes(&mut out, alen.as_slice());
    out.push(kind.byte());
    append_bytes(&mut out, ctr.as_slice());
    append_bytes(&mut out, ciphertext);
    proof {
        assert(out@ =~= frame_bytes(kind, counter, ciphertext@));
    }
    out
}

/// Decodes a frame. Exactly the byte strings of the frame layout decode, and
/// they decode to the parts they were encoded from.
pub fn decode_frame(packet: &[u8]) -> (r: Option<Frame>)
    ensures
        r matches Some(f) ==> packet@ == frame_bytes(f.kind, f.counter, f.ciphertext@),
        forall|k: PacketKind, c: u64, ct: Seq<u8>|
            packet@ == frame_bytes(k, c, ct) ==> (r matches Some(f) && f.kind == k && f.counter
                == c && f.ciphertext@ == ct),
{
    let n = packet.len();
    if n < 20 {
        proof {
            lemma_frame_too_short(packet@);
        }
        return None;
    }
    let kind = match PacketKind::from_byte(packet[0]) {
        Some(k) => k,
        None => {
            proof {
                lemma_frame_tag_mismatch(packet@);
            }
            return None;
        },
    };
    let counter = u64_from_be(vstd::slice::slice_subrange(packet, 1, 9));
    let alen = u16_from_be(vstd::slice::slice_subrange(packet, 9, 11));
    if alen != 9 {
        proof {
            lemma_frame_alen_mismatch(packet@);
        }
        return None;
    }
    for i in 0..9usize
        invariant
            n == packet@.len(),
            n >= 20,
            forall|j: int| 0 <= j < i ==> packet@[11 + j] == #[trigger] packet@[j],
    {
        if packet[11 + i] != packet[i] {
            proof {
                lemma_frame_aad_mismatch(packet@, i as int);
            }
            return None;
        }
    }
    let ciphertext = vstd::slice::slice_to_vec(vstd::slice::slice_subrange(packet, 20, n));
    proof {
        lemma_u64_be_bytes_of_read(packet@.subrange(1, 9));
        lemma_u16_be_bytes_of_read(packet@.subrange(9, 11));
        assert(packet@ =~= frame_bytes(kind, counter, ciphertext@));
        lemma_frame_parts_unique(kind, counter, ciphertext@);
    }
    Some(Frame { kind, counter, ciphertext })
}

/// A byte string shorter than the frame prefix is no frame.
proof fn lemma_frame_too_short(p: Seq<u8>)
    requires
        p.len() < 20,
    ensures
        forall|k: PacketKind, c: u64, ct: Seq<u8>| p != frame_bytes(k, c, ct),
{
    assert forall|k: PacketKind, c: u64, ct: Seq<u8>| p != frame_bytes(k, c, ct) by {
        assert(frame_bytes(k, c, ct).len() >= 20);
    }
}

/// A byte string whose first byte is no tag is no frame.
proof fn lemma_frame_tag_mismatch(p: Seq<u8>)
    requires
        p.len() >= 20,
        PacketKind::kind_of_byte(p[0]) is None,
    ensures
        forall|k: PacketKind, c: u64, ct: Seq<u8>| p != frame_bytes(k, c, ct),
{
    assert forall|k: PacketKind, c: u64, ct: Seq<u8>| p != frame_bytes(k, c, ct) by {
        if p == frame_bytes(k, c, ct) {
            assert(frame_bytes(k, c, ct)[0] == k.byte_spec());
        }
    }
}

/// A byte string whose associated-data length is not nine is no frame.
proof fn lemma_frame_alen_mismatch(p: Seq<u8>)
    requires
        p.len() >= 20,
        u16_from_be_bytes(p.subrange(9, 11)) != 9,
    ensures
        forall|k: PacketKind, c: u64, ct: Seq<u8>| p != frame_bytes(k, c, ct),
{
    assert forall|k: PacketKind, c: u64, ct: Seq<u8>| p != frame_bytes(k, c, ct) by {
        if p == frame_bytes(k, c, ct) {
            assert(p.subrange(9, 11) =~= u16_be_bytes(9));
            lemma_u16_be_round_trip(9);
        }
    }
}

/// A byte string whose associated data differs from its header is no frame.
proof fn lemma_frame_aad_mismatch(p: Seq<u8>, i: int)
    requires
        p.len() >= 20,
        0 <= i < 9,
        p[11 + i] != p[i],
    ensures
        forall|k: PacketKind, c: u64, ct: Seq<u8>| p != frame_bytes(k, c, ct),
{
    assert forall|k: PacketKind, c: u64, ct: Seq<u8>| p != frame_bytes(k, c, ct) by {
        if p == frame_bytes(k, c, ct) {
            assert(frame_bytes(k, c, ct)[11 + i] == frame_aad(k, c)[i]);
            assert(frame_bytes(k, c, ct)[i] == frame_aad(k, c)[i]);
        }
    }
}

/// Relies on String::from_utf8 (std): succeeds exactly on valid UTF-8 input
/// and returns its decoding.
#[verifier::external_body]
pub fn string_from_utf8(bytes: Vec<u8>) -> (r: Option<String>)
    ensures
        r matches Some(s) ==> vstd::utf8::valid_utf8(bytes@) && s@ == vstd::utf8::decode_utf8(
            bytes@,
        ),
        vstd::utf8::valid_utf8(bytes@) ==> r is Some,
{
    String::from_utf8(bytes).ok()
}

/// Whether a string fits behind a 16-bit length prefix.
pub open spec fn lp_ok(s: Seq<char>) -> bool {
    vstd::utf8::encode_utf8(s).len() <= 0xFFFF
}

/// A length-prefixed string: the byte width of its UTF-8 encoding as two
/// big-endian bytes, then the encoding itself.
pub open spec fn lp_bytes(s: Seq<char>) -> Seq<u8> {
    u16_be_bytes(vstd::utf8::encode_utf8(s).len() as u16) + vstd::utf8::encode_utf8(s)
}

/// Appends a length-prefixed string onto a buffer.
pub fn append_lp(out: &mut Vec<u8>, s: &str)
    requires
        lp_ok(s@),
    ensures
        final(out)@ == old(out)@ + lp_bytes(s@),
{
    let blen: u16 = s.len() as u16;
    let l = u16_to_be(blen);
    append_bytes(out, l.as_slice());
    append_bytes(out, s.as_bytes());
    proof {
        assert(out@ =~= old(out)@ + lp_bytes(s@));
    }
}

/// Reads a length-prefixed string starting at `pos`. Exactly the buffers
/// whose bytes at `pos` are a length-prefixed string are read, and the read
/// gives back the string that was appended.
#[verifier::rlimit(60)]
pub fn read_lp(p: &[u8], pos: usize) -> (r: Option<(String, usize)>)
    requires
        pos <= p@.len(),
    ensures
        r matches Some(se) ==> pos + 2 <= se.1 <= p@.len() && lp_ok(se.0@) && p@.subrange(
            pos as int,
            se.1 as int,
        ) == lp_bytes(se.0@),
        forall|s: Seq<char>|
            lp_ok(s) && pos + lp_bytes(s).len() <= p@.len() && p@.subrange(
                pos as int,
                pos + lp_bytes(s).len(),
            ) == lp_bytes(s) ==> (r matches Some(se) && se.0@ == s && se.1 == pos + lp_bytes(
                s,
            ).len()),
{
    broadcast use vstd::utf8::encode_utf8_valid_utf8;
    broadcast use vstd::utf8::encode_utf8_decode_utf8;
    broadcast use vstd::utf8::decode_utf8_encode_utf8;

    let n = p.len();
    if n - pos < 2 {
        proof {
            assert forall|s: Seq<char>|
                lp_ok(s) && pos + lp_bytes(s).len() <= p@.len() implies false by {
                assert(lp_bytes(s).len() >= 2);
            }
        }
        return None;
    }
    let blen = u16_from_be(vstd::slice::slice_subrange(p, pos, pos + 2)) as usize;
    if n - pos - 2 < blen {
        proof {
            assert forall|s: Seq<char>|
                lp_ok(s) && pos + lp_bytes(s).len() <= p@.len() && p@.subrange(
                    pos as int,
                    pos + lp_bytes(s).len(),
                ) == lp_bytes(s) implies false by {
                lemma_lp_prefix_len(p@, pos as int, s);
                assert(blen == vstd::utf8::encode_utf8(s).len());
            }
        }
        return None;
    }
    let end = pos + 2 + blen;
    let body = vstd::slice::slice_to_vec(vstd::slice::slice_subrange(p, pos + 2, end));
    let ghost body_view = body@;
    match string_from_utf8(body) {
        Some(s) => {
            proof {
                assert(vstd::utf8::encode_utf8(s@) == body_view);
                lemma_u16_be_bytes_of_read(p@.subrange(pos as int, pos + 2));
                assert(p@.subrange(pos as int, end as int) =~= lp_bytes(s@));
                assert forall|s2: Seq<char>|
                    lp_ok(s2) && pos + lp_bytes(s2).len() <= p@.len() && p@.subrange(
                        pos as int,
                        pos + lp_bytes(s2).len(),
                    ) == lp_bytes(s2) implies s2 == s@ && pos + lp_bytes(s2).len() == end by {
                    lemma_lp_prefix_len(p@, pos as int, s2);
                    assert(vstd::utf8::encode_utf8(s2) =~= body_view);
                    assert(vstd::utf8::decode_utf8(vstd::utf8::encode_utf8(s2)) == s2);
                }
            }
            Some((s, end))
        },
        None => {
            proof {
                assert forall|s2: Seq<char>|
                    lp_ok(s2) && pos + lp_bytes(s2).len() <= p@.len() && p@.subrange(
                        pos as int,
                        pos + lp_bytes(s2).len(),
                    ) == lp_bytes(s2) implies false by {
                    lemma_lp_prefix_len(p@, pos as int, s2);
                    assert(vstd::utf8::encode_utf8(s2) =~= body_view);
                }
            }
            None
        },
    }
}

/// If the bytes at `pos` are a length-prefixed string, its encoded width is
/// what the two bytes at `pos` say.
proof fn lemma_lp_prefix_len(p: Seq<u8>, pos: int, s: Seq<char>)
    requires
        lp_ok(s),
        0 <= pos,
        pos + lp_bytes(s).len() <= p.len(),
        p.subrange(pos, pos + lp_bytes(s).len()) == lp_bytes(s),
    ensures
        pos + 2 <= p.len(),
        u16_from_be_bytes(p.subrange(pos, pos + 2)) == vstd::utf8::encode_utf8(s).len(),
        p.subrange(pos + 2, pos + lp_bytes(s).len()) =~= vstd::utf8::encode_utf8(s),
{
    let e = vstd::utf8::encode_utf8(s);
    assert(p.subrange(pos, pos + 2) =~= u16_be_bytes(e.len() as u16));
    lemma_u16_be_round_trip(e.len() as u16);
    assert forall|i: int| 0 <= i < e.len() implies p.subrange(
        pos + 2,
        pos + lp_bytes(s).len(),
    )[i] == e[i] by {
        assert(p.subrange(pos, pos + lp_bytes(s).len())[i + 2] == lp_bytes(s)[i + 2]);
    }
}

/// The record carried by a file-header packet: it announces one transfer.
pub struct FileHeaderInfo {
    /// Identifier of the transfer.
    pub transfer_id: String,
    /// Name of the file being sent.
    pub filename: String,
    /// Hex SHA-256 checksum of the full plaintext.
    pub checksum: String,
    /// Total plaintext size in bytes.
    pub total_size: u64,
}

/// The record carried by a file-chunk packet.
pub struct FileChunkInfo {
    /// Identifier of the transfer.
    pub transfer_id: String,
    /// Byte offset of this chunk within the file.
    pub offset: u64,
    /// The chunk bytes.
    pub data: Vec<u8>,
}

/// The record carried by a file-acknowledgement packet.
pub struct FileAckInfo {
    /// Identifier of the transfer.
    pub transfer_id: String,
    /// Highest contiguous byte offset received, or `u64::MAX` to abort.
    pub offset: u64,
}

/// The payload bytes of a file-header packet.
pub open spec fn header_payload_of(
    id: Seq<char>,
    name: Seq<char>,
    sum: Seq<char>,
    total: u64,
) -> Seq<u8> {
    lp_bytes(id) + lp_bytes(name) + lp_bytes(sum) + u64_be_bytes(total)
}

/// The payload bytes of a file-chunk packet.
pub open spec fn chunk_payload_of(id: Seq<char>, offset: u64, data: Seq<u8>) -> Seq<u8> {
    lp_bytes(id) + u64_be_bytes(offset) + data
}

/// The payload bytes of a file-acknowledgement packet.
pub open spec fn ack_payload_of(id: Seq<char>, offset: u64) -> Seq<u8> {
    lp_bytes(id) + u64_be_bytes(offset)
}

/// Encodes a file-header record.
pub fn encode_header_payload(h: &FileHeaderInfo) -> (r: Vec<u8>)
    requires
        lp_ok(h.transfer_id@),
        lp_ok(h.filename@),
        lp_ok(h.checksum@),
    ensures
        r@ == header_payload_of(h.transfer_id@, h.filename@, h.checksum@, h.total_size),
{
    let mut out: Vec<u8> = Vec::new();
    append_lp(&mut out, h.transfer_id.as_str());
    append_lp(&mut out, h.filename.as_str());
    append_lp(&mut out, h.checksum.as_str());
    let t = u64_to_be(h.total_size);
    append_bytes(&mut out, t.as_slice());
    proof {
        assert(out@ =~= header_payload_of(
            h.transfer_id@,
            h.filename@,
            h.checksum@,
            h.total_size,
        ));
    }
    out
}

/// Encodes a file-chunk record.
pub fn encode_chunk_payload(c: &FileChunkInfo) -> (r: Vec<u8>)
    requires
        lp_ok(c.transfer_id@),
    ensures
        r@ == chunk_payload_of(c.transfer_id@, c.offset, c.data@),
{
    let mut out: Vec<u8> = Vec::new();
    append_lp(&mut out, c.transfer_id.as_str());
    let t = u64_to_be(c.offset);
    append_bytes(&mut out, t.as_slice());
    append_bytes(&mut out, c.data.as_slice());
    proof {
        assert(out@ =~= chunk_payload_of(c.transfer_id@, c.offset, c.data@));
    }
    out
}

/// Encodes a file-acknowledgement record.
pub fn encode_ack_payload(a: &FileAckInfo) -> (r: Vec<u8>)
    requires
        lp_ok(a.transfer_id@),
    ensures
        r@ == ack_payload_of(a.transfer_id@, a.offset),
{
    let mut out: Vec<u8> = Vec::new();
    append_lp(&mut out, a.transfer_id.as_str());
    let t = u64_to_be(a.offset);
    append_bytes(&mut out, t.as_slice());
    proof {
        assert(out@ =~= ack_payload_of(a.transfer_id@, a.offset));
    }
    out
}

/// Decodes a file-header record. Exactly the byte strings of the header
/// layout decode, and they decode to the record they were encoded from.
#[verifier::rlimit(100)]
pub fn decode_header_payload(p: &[u8]) -> (r: Option<FileHeaderInfo>)
    ensures
        r matches Some(h) ==> lp_ok(h.transfer_id@) && lp_ok(h.filename@) && lp_ok(h.checksum@)
            && p@ == header_payload_of(h.transfer_id@, h.filename@, h.checksum@, h.total_size),
        forall|id: Seq<char>, name: Seq<char>, sum: Seq<char>, total: u64|
            lp_ok(id) && lp_ok(name) && lp_ok(sum) && p@ == header_payload_of(
                id,
                name,
                sum,
                total,
            ) ==> (r matches Some(h) && h.transfer_id@ == id && h.filename@ == name && h.checksum@
                == sum && h.total_size == total),
{
    let n = p.len();
    let (transfer_id, p1) = match read_lp(p, 0) {
        Some(se) => se,
        None => {
            proof {
                assert forall|id: Seq<char>, name: Seq<char>, sum: Seq<char>, total: u64|
                    lp_ok(id) && lp_ok(name) && lp_ok(sum) && p@ == header_payload_of(
                        id,
                        name,
                        sum,
                        total,
                    ) implies false by {
                    assert(p@.subrange(0, lp_bytes(id).len() as int) =~= lp_bytes(id));
                }
            }
            return None;
        },
    };
    let (filename, p2) = match read_lp(p, p1) {
        Some(se) => se,
        None => {
            proof {
                assert forall|id: Seq<char>, name: Seq<char>, sum: Seq<char>, total: u64|
                    lp_ok(id) && lp_ok(name) && lp_ok(sum) && p@ == header_payload_of(
                        id,
                        name,
                        sum,
                        total,
                    ) implies false by {
                    assert(p@.subrange(0, lp_bytes(id).len() as int) =~= lp_bytes(id));
                    assert(p1 == lp_bytes(id).len());
                    assert(p@.subrange(p1 as int, p1 + lp_bytes(name).len()) =~= lp_bytes(name));
                }
            }
            return None;
        },
    };
    let (checksum, p3) = match read_lp(p, p2) {
        Some(se) => se,
        None => {
            proof {
                assert forall|id: Seq<char>, name: Seq<char>, sum: Seq<char>, total: u64|
                    lp_ok(id) && lp_ok(name) && lp_ok(sum) && p@ == header_payload_of(
                        id,
                        name,
                        sum,
                        total,
                    ) implies false by {
                    assert(p@.subrange(0, lp_bytes(id).len() as int) =~= lp_bytes(id));
                    assert(p1 == lp_bytes(id).len());
                    assert(p@.subrange(p1 as int, p1 + lp_bytes(name).len()) =~= lp_bytes(name));
                    assert(p2 == p1 + lp_bytes(name).len());
                    assert(p@.subrange(p2 as int, p2 + lp_bytes(sum).len()) =~= lp_bytes(sum));
                }
            }
            return None;
        },
    };
    if n - p3 != 8 {
        proof {
            assert forall|id: Seq<char>, name: Seq<char>, sum: Seq<char>, total: u64|
                lp_ok(id) && lp_ok(name) && lp_ok(sum) && p@ == header_payload_of(
                    id,
                    name,
                    sum,
                    total,
                ) implies false by {
                assert(p@.subrange(0, lp_bytes(id).len() as int) =~= lp_bytes(id));
                assert(p1 == lp_bytes(id).len());
                assert(p@.subrange(p1 as int, p1 + lp_bytes(name).len()) =~= lp_bytes(name));
                assert(p2 == p1 + lp_bytes(name).len());
                assert(p@.subrange(p2 as int, p2 + lp_bytes(sum).len()) =~= lp_bytes(sum));
                assert(p3 == p2 + lp_bytes(sum).len());
            }
        }
        return None;
    }
    let total_size = u64_from_be(vstd::slice::slice_subrange(p, p3, n));
    proof {
        lemma_u64_be_bytes_of_read(p@.subrange(p3 as int, n as int));
        assert(p@ =~= header_payload_of(transfer_id@, filename@, checksum@, total_size));
        assert forall|id: Seq<char>, name: Seq<char>, sum: Seq<char>, total: u64|
            lp_ok(id) && lp_ok(name) && lp_ok(sum) && p@ == header_payload_of(
                id,
                name,
                sum,
                total,
            ) implies id == transfer_id@ && name == filename@ && sum == checksum@ && total
            == total_size by {
            assert(p@.subrange(0, lp_bytes(id).len() as int) =~= lp_bytes(id));
            assert(id == transfer_id@ && p1 == lp_bytes(id).len());
            assert(p@.subrange(p1 as int, p1 + lp_bytes(name).len()) =~= lp_bytes(name));
            assert(name == filename@ && p2 == p1 + lp_bytes(name).len());
            assert(p@.subrange(p2 as int, p2 + lp_bytes(sum).len()) =~= lp_bytes(sum));
            assert(sum == checksum@ && p3 == p2 + lp_bytes(sum).len());
            assert(p@.subrange(p3 as int, n as int) =~= u64_be_bytes(total));
            lemma_u64_be_round_trip(total);
        }
    }
    Some(FileHeaderInfo { transfer_id, filename, checksum, total_size })
}

/// Decodes a file-chunk record. Exactly the byte strings of the chunk layout
/// decode, and they decode to the record they were encoded from.
#[verifier::rlimit(100)]
pub fn decode_chunk_payload(p: &[u8]) -> (r: Option<FileChunkInfo>)
    ensures
        r matches Some(c) ==> lp_ok(c.transfer_id@) && p@ == chunk_payload_of(
            c.transfer_id@,
            c.offset,
            c.data@,
        ),
        forall|id: Seq<char>, offset: u64, data: Seq<u8>|
            lp_ok(id) && p@ == chunk_payload_of(id, offset, data) ==> (r matches Some(c)
                && c.transfer_id@ == id && c.offset == offset && c.data@ == data),
{
    let n = p.len();
    let (transfer_id, p1) = match read_lp(p, 0) {
        Some(se) => se,
        None => {
            proof {
                assert forall|id: Seq<char>, offset: u64, data: Seq<u8>|
                    lp_ok(id) && p@ == chunk_payload_of(id, offset, data) implies false by {
                    assert(p@.subrange(0, lp_bytes(id).len() as int) =~= lp_bytes(id));
                }
            }
            return None;
        },
    };
    if n - p1 < 8 {
        proof {
            assert forall|id: Seq<char>, offset: u64, data: Seq<u8>|
                lp_ok(id) && p@ == chunk_payload_of(id, offset, data) implies false by {
                assert(p@.subrange(0, lp_bytes(id).len() as int) =~= lp_bytes(id));
                assert(p1 == lp_bytes(id).len());
            }
        }
        return None;
    }
    let offset = u64_from_be(vstd::slice::slice_subrange(p, p1, p1 + 8));
    let data = vstd::slice::slice_to_vec(vstd::slice::slice_subrange(p, p1 + 8, n));
    proof {
        lemma_u64_be_bytes_of_read(p@.subrange(p1 as int, p1 + 8));
        assert(p@ =~= chunk_payload_of(transfer_id@, offset, data@));
        assert forall|id: Seq<char>, offset2: u64, data2: Seq<u8>|
            lp_ok(id) && p@ == chunk_payload_of(id, offset2, data2) implies id == transfer_id@
            && offset2 == offset && data2 == data@ by {
            assert(p@.subrange(0, lp_bytes(id).len() as int) =~= lp_bytes(id));
            assert(id == transfer_id@ && p1 == lp_bytes(id).len());
            assert(p@.subrange(p1 as int, p1 + 8) =~= u64_be_bytes(offset2));
            lemma_u64_be_round_trip(offset2);
            assert(data2 =~= p@.subrange(p1 + 8, n as int));
        }
    }
    Some(FileChunkInfo { transfer_id, offset, data })
}

/// Decodes a file-acknowledgement record. Exactly the byte strings of the
/// acknowledgement layout decode, and they decode to the record they were
/// encoded from.
#[verifier::rlimit(100)]
pub fn decode_ack_payload(p: &[u8]) -> (r: Option<FileAckInfo>)
    ensures
        r matches Some(a) ==> lp_ok(a.transfer_id@) && p@ == ack_payload_of(
            a.transfer_id@,
            a.offset,
        ),
        forall|id: Seq<char>, offset: u64|
            lp_ok(id) && p@ == ack_payload_of(id, offset) ==> (r matches Some(a) && a.transfer_id@
                == id && a.offset == offset),
{
    let n = p.len();
    let (transfer_id, p1) = match read_lp(p, 0) {
        Some(se) => se,
        None => {
            proof {
                assert forall|id: Seq<char>, offset: u64|
                    lp_ok(id) && p@ == ack_payload_of(id, offset) implies false by {
                    assert(p@.subrange(0, lp_bytes(id).len() as int) =~= lp_bytes(id));
                }
            }
            return None;
        },
    };
    if n - p1 != 8 {
        proof {
            assert forall|id: Seq<char>, offset: u64|
                lp_ok(id) && p@ == ack_payload_of(id, offset) implies false by {
                assert(p@.subrange(0, lp_bytes(id).len() as int) =~= lp_bytes(id));
                assert(p1 == lp_bytes(id).len());
            }
        }
        return None;
    }
    let offset = u64_from_be(vstd::slice::slice_subrange(p, p1, n));
    proof {
        lemma_u64_be_bytes_of_read(p@.subrange(p1 as int, n as int));
        assert(p@ =~= ack_payload_of(transfer_id@, offset));
        assert forall|id: Seq<char>, offset2: u64|
            lp_ok(id) && p@ == ack_payload_of(id, offset2) implies id == transfer_id@ && offset2
            == offset by {
            assert(p@.subrange(0, lp_bytes(id).len() as int) =~= lp_bytes(id));
            assert(id == transfer_id@ && p1 == lp_bytes(id).len());
            assert(p@.subrange(p1 as int, n as int) =~= u64_be_bytes(offset2));
            lemma_u64_be_round_trip(offset2);
        }
    }
    Some(FileAckInfo { transfer_id, offset })
}

/// The parts of a frame are read off its bytes unambiguously.
proof fn lemma_frame_parts_unique(kind: PacketKind, counter: u64, ct: Seq<u8>)
    ensures
        forall|k: PacketKind, c: u64, ct2: Seq<u8>|
            frame_bytes(kind, counter, ct) == frame_bytes(k, c, ct2) ==> k == kind && c == counter
                && ct2 == ct,
{
    assert forall|k: PacketKind, c: u64, ct2: Seq<u8>|
        frame_bytes(kind, counter, ct) == frame_bytes(k, c, ct2) implies k == kind && c == counter
        && ct2 == ct by {
        let a = frame_bytes(kind, counter, ct);
        let b = frame_bytes(k, c, ct2);
        assert(a[0] == kind.byte_spec());
        assert(b[0] == k.byte_spec());
        assert(a.subrange(1, 9) =~= u64_be_bytes(counter));
        assert(b.subrange(1, 9) =~= u64_be_bytes(c));
        lemma_u64_be_round_trip(counter);
        lemma_u64_be_round_trip(c);
        assert(a.len() == 20 + ct.len());
        assert(b.len() == 20 + ct2.len());
        assert(a.subrange(20, a.len() as int) =~= ct);
        assert(b.subrange(20, b.len() as int) =~= ct2);
    }
}

} // verus!
