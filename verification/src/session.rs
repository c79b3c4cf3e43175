//! Encrypted sessions: per-packet nonce derivation, sealing and opening of
//! framed packets, and the receive-counter discipline that rejects replays
//! and out-of-order delivery.

use vstd::prelude::*;
use vstd::string::StrSliceExecFns;
use crate::crypto::{
    aead_open, aead_seal, aead_seal_of, sha256, sha256_of, AEAD_LEN_MAX,
};
use crate::wire::{
    append_bytes, decode_frame, encode_frame, frame_aad, frame_bytes, u64_be_bytes, u64_to_be,
    PacketKind,
};

verus! {

/// The bytes hashed to derive a packet nonce: the session id followed by the
/// packet's send counter.
pub open spec fn nonce_input_of(session_id: Seq<char>, counter: u64) -> Seq<u8> {
    vstd::utf8::encode_utf8(session_id) + u64_be_bytes(counter)
}

/// The deterministic per-packet nonce: the first 12 bytes of the SHA-256
/// digest of the session id and the counter. The counter prevents reuse
/// within a session; the session id scopes nonces across peers.
pub open spec fn packet_nonce_of(session_id: Seq<char>, counter: u64) -> Seq<u8> {
    sha256_of(nonce_input_of(session_id, counter)).take(12)
}

/// Derives the nonce for one packet of a session.
pub fn derive_nonce(session_id: &str, counter: u64) -> (r: Vec<u8>)
    ensures
        r@ == packet_nonce_of(session_id@, counter),
        r@.len() == 12,
{
    let mut input = session_id.as_bytes_vec();
    let ctr = u64_to_be(counter);
    append_bytes(&mut input, ctr.as_slice());
    proof {
        assert(input@ =~= nonce_input_of(session_id@, counter));
    }
    let digest = sha256(input.as_slice());
    let mut nonce: Vec<u8> = Vec::new();
    for i in 0..12usize
        invariant
            digest@.len() == 32,
            nonce@ =~= digest@.take(i as int),
    {
        nonce.push(digest[i]);
        proof {
            assert(nonce@ =~= digest@.take(i + 1));
        }
    }
    nonce
}

/// The full wire bytes of a sealed packet on a session: the frame whose
/// ciphertext is the AES-256-GCM sealing of the plaintext under the session
/// key, the packet's derived nonce, and the frame header as associated data.
pub open spec fn sealed_packet_of(
    key: Seq<u8>,
    session_id: Seq<char>,
    kind: PacketKind,
    counter: u64,
    plaintext: Seq<u8>,
) -> Seq<u8> {
    frame_bytes(
        kind,
        counter,
        aead_seal_of(key, packet_nonce_of(session_id, counter), frame_aad(kind, counter), plaintext),
    )
}

/// Builds the associated-data bytes of a packet: its tag and its counter.
fn build_aad(kind: PacketKind, counter: u64) -> (r: Vec<u8>)
    ensures
        r@ == frame_aad(kind, counter),
        r@.len() == 9,
{
    let mut aad: Vec<u8> = Vec::new();
    aad.push(kind.byte());
    let ctr = u64_to_be(counter);
    append_bytes(&mut aad, ctr.as_slice());
    proof {
        assert(aad@ =~= frame_aad(kind, counter));
    }
    aad
}

/// Seals one payload into a framed packet for a session.
pub fn seal_packet(
    key: &[u8],
    session_id: &str,
    kind: PacketKind,
    counter: u64,
    plaintext: &[u8],
) -> (r: Vec<u8>)
    requires
        key@.len() == 32,
        plaintext@.len() <= AEAD_LEN_MAX,
    ensures
        r@ == sealed_packet_of(key@, session_id@, kind, counter, plaintext@),
{
    let nonce = derive_nonce(session_id, counter);
    let aad = build_aad(kind, counter);
    let ciphertext = aead_seal(key, nonce.as_slice(), aad.as_slice(), plaintext);
    encode_frame(kind, counter, ciphertext.as_slice())
}

/// Opens a framed packet on a session. Exactly the sealed packets of the
/// session open, and each yields the kind, counter and plaintext it was
/// sealed from: opening inverts sealing, and a packet tampered with in its
/// header, associated data or ciphertext is rejected.
pub fn open_packet(key: &[u8], session_id: &str, packet: &[u8]) -> (r: Option<
    (PacketKind, u64, Vec<u8>),
>)
    requires
        key@.len() == 32,
    ensures
        r matches Some(t) ==> packet@ == sealed_packet_of(key@, session_id@, t.0, t.1, t.2@)
            && t.2@.len() <= AEAD_LEN_MAX,
        forall|k: PacketKind, c: u64, m: Seq<u8>|
            m.len() <= AEAD_LEN_MAX && packet@ == sealed_packet_of(key@, session_id@, k, c, m)
                ==> (r matches Some(t) && t.0 == k && t.1 == c && t.2@ == m),
{
    let frame = match decode_frame(packet) {
        Some(f) => f,
        None => {
            return None;
        },
    };
    let nonce = derive_nonce(session_id, frame.counter);
    let aad = build_aad(frame.kind, frame.counter);
    match aead_open(key, nonce.as_slice(), aad.as_slice(), frame.ciphertext.as_slice()) {
        Some(plaintext) => {
            if plaintext.len() as u64 > AEAD_LEN_MAX {
                // Whatever it was sealed from lies beyond the AEAD limit.
                return None;
            }
            Some((frame.kind, frame.counter, plaintext))
        },
        None => None,
    }
}

/// Lifecycle of a session: created while pairing, active once both sides
/// confirm, closed for good on disconnect, shutdown or a crypto failure.
#[derive(Debug, Clone, Copy, PartialEq, Eq, Structural)]
pub enum SessionState {
    Pairing,
    Active,
    Closed,
}

/// An in-memory session: an authenticated, encrypted, ordered channel to one
/// peer after pairing.
pub struct Session {
    /// Identifier of this session.
    pub id: String,
    /// Stable identifier of the peer.
    pub peer_id: String,
    /// Lifecycle state.
    pub state: SessionState,
    /// The 32-byte session key derived from the shared secret.
    pub key: Vec<u8>,
    /// Counter of the last packet sent; the next packet carries one more.
    pub send_counter: u64,
    /// Counter of the last packet accepted; only greater counters are
    /// accepted after it.
    pub recv_counter: u64,
}

impl Session {
    /// A session is well-formed when its key is 32 bytes wide.
    pub open spec fn wf(self) -> bool {
        self.key@.len() == 32
    }

    /// Whether a session accepts an incoming packet counter: only counters
    /// strictly greater than the last accepted one pass. A gap is permitted;
    /// a replay or out-of-order delivery is not.
    pub open spec fn accepts_counter(self, counter: u64) -> bool {
        counter > self.recv_counter
    }

    /// The session after accepting a packet counter.
    pub open spec fn with_accepted(self, counter: u64) -> Session {
        Session { recv_counter: counter, ..self }
    }

    /// Creates a session on a freshly derived key, both counters at zero.
    pub fn new(id: String, peer_id: String, state: SessionState, key: Vec<u8>) -> (s: Session)
        requires
            key@.len() == 32,
        ensures
            s.wf(),
            s.id == id,
            s.peer_id == peer_id,
            s.state == state,
            s.key == key,
            s.send_counter == 0,
            s.recv_counter == 0,
    {
        Session { id, peer_id, state, key, send_counter: 0, recv_counter: 0 }
    }

    /// Allocates the next send counter, or refuses if the counter space is
    /// exhausted.
    pub fn next_send_counter(&mut self) -> (c: Option<u64>)
        ensures
            old(self).send_counter < u64::MAX ==> (c == Some((old(self).send_counter + 1) as u64)
                && final(self).send_counter == old(self).send_counter + 1),
            old(self).send_counter == u64::MAX ==> c is None && *final(self) == *old(self),
            final(self).id == old(self).id,
            final(self).peer_id == old(self).peer_id,
            final(self).state == old(self).state,
            final(self).key == old(self).key,
            final(self).recv_counter == old(self).recv_counter,
    {
        if self.send_counter == u64::MAX {
            None
        } else {
            self.send_counter = self.send_counter + 1;
            Some(self.send_counter)
        }
    }

    /// Checks an incoming packet counter and records it when it is accepted.
    /// Exactly the counters strictly greater than the last accepted one are
    /// accepted.
    pub fn accept_counter(&mut self, counter: u64) -> (ok: bool)
        ensures
            ok == old(self).accepts_counter(counter),
            ok ==> *final(self) == old(self).with_accepted(counter),
            !ok ==> *final(self) == *old(self),
    {
        if counter > self.recv_counter {
            self.recv_counter = counter;
            true
        } else {
            false
        }
    }
}

/// Counters of packets accepted in order strictly increase: if a session
/// accepts a packet with counter `c1` and then one with counter `c2`, then
/// `c2 > c1`. In particular a replayed counter is never accepted twice.
pub proof fn lemma_accepted_counters_increase(s: Session, c1: u64, c2: u64)
    requires
        s.accepts_counter(c1),
        s.with_accepted(c1).accepts_counter(c2),
    ensures
        c2 > c1,
{
}

} // verus!
