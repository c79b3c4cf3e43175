//! The pairing protocol: ephemeral X25519 key exchange over one transport,
//! fingerprint and PIN derivation, out-of-band PIN comparison, and the final
//! mutual confirmation.
//!
//! The transport itself stays outside the library: callers send the local
//! public key, hand received packets in, and send the confirmation payload
//! out. Everything the protocol decides or derives is verified here.

use vstd::prelude::*;
use vstd::string::StrSliceExecFns;
use crate::bluetooth::BluetoothError;
use crate::crypto::{
    fingerprint_of, generate_fingerprint, generate_pin_from_fingerprint, pin_of,
    x25519_generate_keypair, x25519_of, compute_shared_secret, CryptoError,
};
use crate::wire::{bytes_eq, str_eq};

verus! {

/// The pairing confirmation payload both sides exchange last.
pub open spec fn pairing_complete_bytes() -> Seq<u8> {
    vstd::utf8::encode_utf8("PAIRING_COMPLETE"@)
}

/// The confirmation payload to send after the PIN was confirmed.
pub fn pairing_complete_payload() -> (r: Vec<u8>)
    ensures
        r@ == pairing_complete_bytes(),
{
    let s: &str = "PAIRING_COMPLETE";
    s.as_bytes_vec()
}

/// Steps of the pairing state machine. Every transition is driven by a
/// transport packet or a user call; failures dissolve the session.
#[derive(Debug, Clone, Copy, PartialEq, Eq, Structural)]
pub enum PairingState {
    Idle,
    AwaitingKeys,
    AwaitingPinConfirm,
    AwaitingCompleteAck,
    Done,
    Failed,
}

/// A transient pairing handshake with one peer, bound to one transport for
/// its lifetime. Holds the ephemeral keypair, and — once the key exchange
/// succeeded — the remote public key, the fingerprint and the PIN.
pub struct PairingSession {
    /// Stable identifier of the peer being paired.
    pub peer_id: String,
    /// Display name of the peer.
    pub peer_name: String,
    /// Link address of the peer.
    pub peer_address: String,
    /// Ephemeral X25519 public key, sent to the peer.
    pub local_public: Vec<u8>,
    /// Ephemeral X25519 secret key.
    pub local_secret: Vec<u8>,
    /// The peer's public key, present once the exchange step succeeded.
    pub remote_public: Option<Vec<u8>>,
    /// Fingerprint of the peer's public key, derived with the remote key.
    pub fingerprint: Option<String>,
    /// Six-digit PIN derived from the fingerprint.
    pub pin: Option<String>,
    /// Current step of the handshake.
    pub state: PairingState,
}

impl PairingSession {
    /// Well-formedness: the ephemeral keys are 32 bytes wide; the remote
    /// key, the fingerprint and the PIN are all present or all absent, and
    /// when present they agree: the fingerprint is derived from the remote
    /// key and the PIN from the fingerprint.
    pub open spec fn wf(self) -> bool {
        &&& self.local_public@.len() == 32
        &&& self.local_secret@.len() == 32
        &&& (self.remote_public is Some <==> self.fingerprint is Some)
        &&& (self.remote_public is Some <==> self.pin is Some)
        &&& (self.remote_public matches Some(rp) ==> rp@.len() == 32 && self.fingerprint->0@
            == fingerprint_of(rp@) && self.fingerprint->0@.len() == 12 && self.pin->0@ == pin_of(
            fingerprint_of(rp@),
        ))
    }

    /// Starts a pairing handshake with a peer: draws a fresh ephemeral
    /// keypair; nothing has been exchanged yet.
    pub fn initiate(peer_id: String, peer_name: String, peer_address: String) -> (s:
        PairingSession)
        ensures
            s.wf(),
            s.peer_id == peer_id,
            s.peer_name == peer_name,
            s.peer_address == peer_address,
            s.remote_public is None,
            s.fingerprint is None,
            s.pin is None,
            s.state == PairingState::AwaitingKeys,
    {
        let (public, secret) = x25519_generate_keypair();
        PairingSession {
            peer_id,
            peer_name,
            peer_address,
            local_public: public,
            local_secret: secret,
            remote_public: None,
            fingerprint: None,
            pin: None,
            state: PairingState::AwaitingKeys,
        }
    }

    /// The local public key, to be sent to the peer as one raw packet.
    pub fn local_public_key(&self) -> (r: Vec<u8>)
        requires
            self.wf(),
        ensures
            r@ == self.local_public@,
            r@.len() == 32,
    {
        let mut out: Vec<u8> = Vec::new();
        let n = self.local_public.len();
        for i in 0..n
            invariant
                n == self.local_public@.len(),
                out@ =~= self.local_public@.take(i as int),
        {
            out.push(self.local_public[i]);
            proof {
                assert(out@ =~= self.local_public@.take(i + 1));
            }
        }
        proof {
            assert(self.local_public@.take(n as int) =~= self.local_public@);
        }
        out
    }

    /// Takes the packet received in exchange for the local public key: its
    /// first 32 bytes are the remote public key; the fingerprint and the PIN
    /// are derived from it. A shorter packet fails the handshake.
    pub fn process_remote_key(&mut self, packet: &[u8]) -> (r: Result<(), BluetoothError>)
        requires
            old(self).wf(),
            old(self).state == PairingState::AwaitingKeys,
            old(self).remote_public is None,
        ensures
            final(self).wf(),
            final(self).peer_id == old(self).peer_id,
            final(self).peer_name == old(self).peer_name,
            final(self).peer_address == old(self).peer_address,
            final(self).local_public == old(self).local_public,
            final(self).local_secret == old(self).local_secret,
            r is Ok <==> packet@.len() >= 32,
            r is Ok ==> final(self).state == PairingState::AwaitingPinConfirm && (
            final(self).remote_public matches Some(rp) && rp@ == packet@.take(32)) && (
            final(self).fingerprint matches Some(fp) && fp@ == fingerprint_of(packet@.take(32)))
                && (final(self).pin matches Some(pin) && pin@ == pin_of(
                fingerprint_of(packet@.take(32)),
            )),
            r is Err ==> final(self).state == PairingState::Failed
                && final(self).remote_public is None && (r matches Err(e) && e matches
            BluetoothError::PairingFailed),
    {
        if packet.len() < 32 {
            self.state = PairingState::Failed;
            return Err(BluetoothError::PairingFailed);
        }
        let remote = vstd::slice::slice_to_vec(vstd::slice::slice_subrange(packet, 0, 32));
        let fingerprint = generate_fingerprint(remote.as_slice());
        let pin = generate_pin_from_fingerprint(fingerprint.as_str());
        self.remote_public = Some(remote);
        self.fingerprint = Some(fingerprint);
        self.pin = Some(pin);
        self.state = PairingState::AwaitingPinConfirm;
        Ok(())
    }

    /// Whether the PIN the user typed equals the derived PIN. This is the
    /// out-of-band confirmation: both sides derive the same PIN from the
    /// same fingerprint, the user reads it on one side and types it on the
    /// other. Before the exchange step there is no PIN and nothing matches.
    pub fn verify_pin(&self, user_pin: &str) -> (r: bool)
        ensures
            r == (self.pin matches Some(p) && p@ == user_pin@),
    {
        match &self.pin {
            Some(p) => str_eq(p.as_str(), user_pin),
            None => false,
        }
    }

    /// Takes the peer's answer to the confirmation payload: pairing is done
    /// exactly when the peer echoed the confirmation payload back; anything
    /// else fails the handshake.
    pub fn process_complete_ack(&mut self, response: &[u8]) -> (r: Result<(), BluetoothError>)
        requires
            old(self).wf(),
        ensures
            final(self).wf(),
            r is Ok <==> response@ == pairing_complete_bytes(),
            r is Ok ==> *final(self) == (PairingSession {
                state: PairingState::Done,
                ..*old(self)
            }),
            r is Err ==> final(self).state == PairingState::Failed && (r matches Err(e)
                && e matches BluetoothError::PairingFailed),
            final(self).peer_id == old(self).peer_id,
            final(self).fingerprint == old(self).fingerprint,
            final(self).remote_public == old(self).remote_public,
            final(self).pin == old(self).pin,
            final(self).local_secret == old(self).local_secret,
    {
        let expected = pairing_complete_payload();
        if bytes_eq(response, expected.as_slice()) {
            self.state = PairingState::Done;
            Ok(())
        } else {
            self.state = PairingState::Failed;
            Err(BluetoothError::PairingFailed)
        }
    }

    /// The derived shared secret: the X25519 product of the local ephemeral
    /// secret and the remote public key, adopted as the initial session key.
    /// Owed exactly once the key exchange succeeded.
    pub fn session_key(&self) -> (r: Result<Vec<u8>, CryptoError>)
        requires
            self.wf(),
        ensures
            self.remote_public is Some <==> r is Ok,
            r matches Ok(k) ==> k@ == x25519_of(
                self.local_secret@,
                self.remote_public->0@,
            ) && k@.len() == 32,
            r matches Err(e) ==> e == CryptoError::KeyExchangeFailed,
    {
        match &self.remote_public {
            Some(remote) => Ok(
                compute_shared_secret(self.local_secret.as_slice(), remote.as_slice()),
            ),
            None => Err(CryptoError::KeyExchangeFailed),
        }
    }

    /// The derived PIN, once the exchange step succeeded.
    pub fn get_pin(&self) -> (r: Option<&String>)
        ensures
            r matches Some(p) ==> self.pin matches Some(q) && p == q,
            r is Some <==> self.pin is Some,
    {
        self.pin.as_ref()
    }

    /// The derived fingerprint, once the exchange step succeeded.
    pub fn get_fingerprint(&self) -> (r: Option<&String>)
        ensures
            r matches Some(p) ==> self.fingerprint matches Some(q) && p == q,
            r is Some <==> self.fingerprint is Some,
    {
        self.fingerprint.as_ref()
    }

    /// The peer's identifier, name and address.
    pub fn get_device_info(&self) -> (r: (String, String, String))
        ensures
            r.0 == self.peer_id,
            r.1 == self.peer_name,
            r.2 == self.peer_address,
    {
        (self.peer_id.clone(), self.peer_name.clone(), self.peer_address.clone())
    }

    /// The fingerprint to persist on the peer record at promotion.
    pub fn get_fingerprint_for_storage(&self) -> (r: Option<String>)
        ensures
            r matches Some(p) ==> self.fingerprint matches Some(q) && p == q,
            r is Some <==> self.fingerprint is Some,
    {
        match &self.fingerprint {
            Some(fp) => Some(fp.clone()),
            None => None,
        }
    }

    /// Wipes the ephemeral secret key. The handshake is over afterwards.
    pub fn dissolve(&mut self)
        ensures
            final(self).local_secret@.len() == old(self).local_secret@.len(),
            forall|i: int|
                0 <= i < final(self).local_secret@.len() ==> final(self).local_secret@[i] == 0u8,
            final(self).state == PairingState::Failed,
    {
        crate::crypto::zeroize_bytes(&mut self.local_secret);
        self.state = PairingState::Failed;
    }
}

} // verus!
