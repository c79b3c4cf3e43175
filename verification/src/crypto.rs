//! Cryptographic primitives: X25519 key agreement, SHA-256 fingerprints, PIN
//! derivation, AES-256-GCM sealing and opening, and hex checksums.
//!
//! The outside primitives are reached through trusted wrappers whose
//! contracts name their results; everything built on top of them (the
//! fingerprint rule, the PIN rule, the hex encoding, the at-rest envelope
//! with its prepended random nonce) is verified.

use vstd::prelude::*;
use base64::Engine;
use sha2::Digest;
use aes_gcm::aead::Aead;
use aes_gcm::KeyInit;

verus! {

/// Upper bound on the byte length AES-256-GCM accepts for one plaintext or
/// one associated-data region.
pub const AEAD_LEN_MAX: u64 = 0x10_0000_0000;

/// Byte length of the authentication tag AES-256-GCM appends.
pub const AEAD_TAG_LEN: usize = 16;

/// Failures of the primitives in this module.
#[derive(Debug, Clone, PartialEq, Eq, Structural)]
pub enum CryptoError {
    KeyExchangeFailed,
    InvalidKey,
    EncryptionFailed,
    DecryptionFailed,
}

/// The SHA-256 digest of a byte sequence.
pub uninterp spec fn sha256_of(data: Seq<u8>) -> Seq<u8>;

/// The standard padded base64 encoding of a byte sequence.
pub uninterp spec fn base64_of(data: Seq<u8>) -> Seq<char>;

/// The raw X25519 shared point of a secret key and a public key.
pub uninterp spec fn x25519_of(secret: Seq<u8>, public: Seq<u8>) -> Seq<u8>;

/// The AES-256-GCM sealing (ciphertext with its postfix tag) of a plaintext
/// under a key, a nonce and associated data.
pub uninterp spec fn aead_seal_of(
    key: Seq<u8>,
    nonce: Seq<u8>,
    aad: Seq<u8>,
    plaintext: Seq<u8>,
) -> Seq<u8>;

/// Relies on sha2::Sha256: the digest is a function of the input bytes alone
/// and is 32 bytes wide.
#[verifier::external_body]
pub fn sha256(data: &[u8]) -> (r: Vec<u8>)
    ensures
        r@ == sha256_of(data@),
        r@.len() == 32,
{
    sha2::Sha256::digest(data).to_vec()
}

/// Relies on base64's STANDARD engine: padded encoding, a function of the
/// input bytes alone, four output characters for every started group of
/// three input bytes.
#[verifier::external_body]
pub fn base64_encode(data: &[u8]) -> (r: String)
    ensures
        r@ == base64_of(data@),
        r@.len() == ((data@.len() + 2) / 3) * 4,
{
    base64::engine::general_purpose::STANDARD.encode(data)
}

/// Relies on x25519_dalek::StaticSecret::random_from_rng over the operating
/// system's RNG and on PublicKey::from: a fresh keypair, returned as
/// (public, secret). Nothing is assumed of the values beyond their widths.
#[verifier::external_body]
pub fn x25519_generate_keypair() -> (r: (Vec<u8>, Vec<u8>))
    ensures
        r.0@.len() == 32,
        r.1@.len() == 32,
{
    let secret = x25519_dalek::StaticSecret::random_from_rng(rand::rngs::OsRng);
    let public = x25519_dalek::PublicKey::from(&secret);
    (public.as_bytes().to_vec(), secret.to_bytes().to_vec())
}

/// Relies on x25519_dalek::StaticSecret::diffie_hellman: the raw X25519
/// shared point, a 32-byte function of the two keys alone.
#[verifier::external_body]
pub fn compute_shared_secret(secret: &[u8], public: &[u8]) -> (r: Vec<u8>)
    requires
        secret@.len() == 32,
        public@.len() == 32,
    ensures
        r@ == x25519_of(secret@, public@),
        r@.len() == 32,
{
    let mut s = [0u8; 32];
    s.copy_from_slice(secret);
    let mut p = [0u8; 32];
    p.copy_from_slice(public);
    let shared = x25519_dalek::StaticSecret::from(s)
        .diffie_hellman(&x25519_dalek::PublicKey::from(p));
    shared.to_bytes().to_vec()
}

/// Relies on aes_gcm::Aes256Gcm through aead::Aead::encrypt: AES-256-GCM with
/// a postfix 16-byte tag, deterministic in key, nonce, associated data and
/// plaintext, and total for plaintexts and associated data up to 2^36 bytes.
#[verifier::external_body]
pub fn aead_seal(key: &[u8], nonce: &[u8], aad: &[u8], plaintext: &[u8]) -> (r: Vec<u8>)
    requires
        key@.len() == 32,
        nonce@.len() == 12,
        plaintext@.len() <= AEAD_LEN_MAX,
        aad@.len() <= AEAD_LEN_MAX,
    ensures
        r@ == aead_seal_of(key@, nonce@, aad@, plaintext@),
        r@.len() == plaintext@.len() + 16,
{
    let cipher = aes_gcm::Aes256Gcm::new(aes_gcm::Key::<aes_gcm::Aes256Gcm>::from_slice(key));
    let payload = aes_gcm::aead::Payload { msg: plaintext, aad };
    cipher
        .encrypt(aes_gcm::aead::generic_array::GenericArray::from_slice(nonce), payload)
        .expect("plaintext and aad are within the AES-GCM length limits")
}

/// Relies on aes_gcm::Aes256Gcm through aead::Aead::decrypt: opening inverts
/// sealing under the same key, nonce and associated data, and anything that
/// is not a sealing under them is rejected; the plaintext is the ciphertext
/// less its postfix 16-byte tag.
#[verifier::external_body]
pub fn aead_open(key: &[u8], nonce: &[u8], aad: &[u8], ciphertext: &[u8]) -> (r: Option<
    Vec<u8>,
>)
    requires
        key@.len() == 32,
        nonce@.len() == 12,
    ensures
        r is Some ==> ciphertext@ == aead_seal_of(key@, nonce@, aad@, r->0@)
            && r->0@.len() + 16 == ciphertext@.len(),
        forall|m: Seq<u8>|
            ciphertext@ == aead_seal_of(key@, nonce@, aad@, m) && m.len() <= AEAD_LEN_MAX
                && aad@.len() <= AEAD_LEN_MAX ==> r is Some && r->0@ == m,
{
    let cipher = aes_gcm::Aes256Gcm::new(aes_gcm::Key::<aes_gcm::Aes256Gcm>::from_slice(key));
    let payload = aes_gcm::aead::Payload { msg: ciphertext, aad };
    cipher
        .decrypt(aes_gcm::aead::generic_array::GenericArray::from_slice(nonce), payload)
        .ok()
}

/// Relies on rand::rngs::OsRng through RngCore::fill_bytes: twelve bytes from
/// the operating system's RNG. Nothing is assumed about their values. The
/// call aborts if the OS RNG itself fails — a machine condition no input
/// could exclude.
#[verifier::external_body]
pub fn random_nonce() -> (r: Vec<u8>)
    ensures
        r@.len() == 12,
{
    let mut buf = [0u8; 12];
    rand::RngCore::fill_bytes(&mut rand::rngs::OsRng, &mut buf);
    buf.to_vec()
}

/// Relies on zeroize::Zeroize for byte slices: every byte is overwritten
/// with zero and the length is kept.
#[verifier::external_body]
pub fn zeroize_bytes(data: &mut Vec<u8>)
    ensures
        final(data)@.len() == old(data)@.len(),
        forall|i: int| 0 <= i < final(data)@.len() ==> final(data)@[i] == 0u8,
{
    zeroize::Zeroize::zeroize(data.as_mut_slice());
}

/// The fingerprint of a long-term public key: the standard base64 encoding
/// of the first 8 bytes of its SHA-256 digest.
pub open spec fn fingerprint_of(public_key: Seq<u8>) -> Seq<char> {
    base64_of(sha256_of(public_key).take(8))
}

/// Derives the short, human-comparable fingerprint of a 32-byte public key:
/// base64 of the first 8 digest bytes, always 12 characters.
pub fn generate_fingerprint(public_key: &[u8]) -> (r: String)
    requires
        public_key@.len() == 32,
    ensures
        r@ == fingerprint_of(public_key@),
        r@.len() == 12,
{
    let hash = sha256(public_key);
    let mut short: Vec<u8> = Vec::new();
    for i in 0..8
        invariant
            hash@.len() == 32,
            short@ == hash@.take(i as int),
    {
        short.push(hash[i]);
        proof {
            assert(short@ =~= hash@.take(i + 1));
        }
    }
    proof {
        assert(short@ =~= sha256_of(public_key@).take(8));
    }
    base64_encode(short.as_slice())
}

/// The decimal-digit character with value `d`, for `d` below ten.
pub open spec fn digit_char(d: u32) -> char {
    if d == 0 {
        '0'
    } else if d == 1 {
        '1'
    } else if d == 2 {
        '2'
    } else if d == 3 {
        '3'
    } else if d == 4 {
        '4'
    } else if d == 5 {
        '5'
    } else if d == 6 {
        '6'
    } else if d == 7 {
        '7'
    } else if d == 8 {
        '8'
    } else {
        '9'
    }
}

/// The PIN digit drawn from position `i` of a fingerprint: the character's
/// code point modulo ten, with 'A' standing in for a missing character.
pub open spec fn pin_char_of(fp: Seq<char>, i: int) -> char {
    let c = if 0 <= i < fp.len() {
        fp[i]
    } else {
        'A'
    };
    digit_char((c as u32) % 10)
}

/// The six-digit PIN derived from a fingerprint.
pub open spec fn pin_of(fp: Seq<char>) -> Seq<char> {
    Seq::new(6, |i: int| pin_char_of(fp, i))
}

/// Derives the six-decimal-digit pairing PIN from a fingerprint: for each of
/// the first six positions, the character's code point modulo ten ('A' if
/// the fingerprint is shorter).
pub fn generate_pin_from_fingerprint(fingerprint: &str) -> (r: String)
    ensures
        r@ == pin_of(fingerprint@),
        r@.len() == 6,
{
    let n = fingerprint.unicode_len();
    let mut pin = String::new();
    for i in 0..6usize
        invariant
            n == fingerprint@.len(),
            pin@ =~= pin_of(fingerprint@).take(i as int),
    {
        let c: char = if i < n {
            fingerprint.get_char(i)
        } else {
            'A'
        };
        let d: u32 = (c as u32) % 10;
        let ds: &str = if d == 0 {
            "0"
        } else if d == 1 {
            "1"
        } else if d == 2 {
            "2"
        } else if d == 3 {
            "3"
        } else if d == 4 {
            "4"
        } else if d == 5 {
            "5"
        } else if d == 6 {
            "6"
        } else if d == 7 {
            "7"
        } else if d == 8 {
            "8"
        } else {
            "9"
        };
        proof {
            reveal_strlit("0");
            reveal_strlit("1");
            reveal_strlit("2");
            reveal_strlit("3");
            reveal_strlit("4");
            reveal_strlit("5");
            reveal_strlit("6");
            reveal_strlit("7");
            reveal_strlit("8");
            reveal_strlit("9");
            assert(ds@ =~= seq![pin_char_of(fingerprint@, i as int)]);
        }
        pin.append(ds);
        proof {
            assert(pin@ =~= pin_of(fingerprint@).take(i + 1));
        }
    }
    proof {
        assert(pin_of(fingerprint@).take(6) =~= pin_of(fingerprint@));
    }
    pin
}

/// The PIN rule is deterministic — the PIN is a function of the fingerprint
/// alone — and always yields exactly six decimal digits.
pub proof fn lemma_pin_properties(fp: Seq<char>)
    ensures
        pin_of(fp).len() == 6,
        forall|i: int|
            0 <= i < 6 ==> ('0' as u32) <= (#[trigger] pin_of(fp)[i] as u32) <= ('9' as u32),
{
    assert forall|i: int| 0 <= i < 6 implies ('0' as u32) <= (#[trigger] pin_of(fp)[i] as u32) <= (
    '9' as u32) by {
        let c = if 0 <= i < fp.len() {
            fp[i]
        } else {
            'A'
        };
        let d = (c as u32) % 10;
        assert(d < 10);
        assert(pin_of(fp)[i] == digit_char(d));
    }
}

/// The lower-case hexadecimal digit with value `d`, for `d` below sixteen.
pub open spec fn hex_digit(d: u8) -> char {
    if d == 0 {
        '0'
    } else if d == 1 {
        '1'
    } else if d == 2 {
        '2'
    } else if d == 3 {
        '3'
    } else if d == 4 {
        '4'
    } else if d == 5 {
        '5'
    } else if d == 6 {
        '6'
    } else if d == 7 {
        '7'
    } else if d == 8 {
        '8'
    } else if d == 9 {
        '9'
    } else if d == 10 {
        'a'
    } else if d == 11 {
        'b'
    } else if d == 12 {
        'c'
    } else if d == 13 {
        'd'
    } else if d == 14 {
        'e'
    } else {
        'f'
    }
}

/// The lower-case hexadecimal encoding of a byte sequence, two digits per
/// byte, high nibble first.
pub open spec fn hex_of(data: Seq<u8>) -> Seq<char>
    decreases data.len(),
{
    if data.len() == 0 {
        Seq::empty()
    } else {
        hex_of(data.drop_last()) + seq![
            hex_digit(data.last() / 16),
            hex_digit(data.last() % 16),
        ]
    }
}

/// Encodes bytes as lower-case hex, two digits per byte, high nibble first.
pub fn hex_encode(data: &[u8]) -> (r: String)
    ensures
        r@ == hex_of(data@),
        r@.len() == 2 * data@.len(),
{
    proof {
        lemma_hex_of_len(data@);
    }
    let mut out = String::new();
    let n = data.len();
    for i in 0..n
        invariant
            n == data@.len(),
            out@ =~= hex_of(data@.take(i as int)),
    {
        let hi: u8 = data[i] / 16;
        let lo: u8 = data[i] % 16;
        let hs = hex_digit_str(hi);
        let ls = hex_digit_str(lo);
        out.append(hs);
        out.append(ls);
        proof {
            assert(data@.take(i + 1).drop_last() =~= data@.take(i as int));
            assert(data@.take(i + 1).last() == data@[i as int]);
        }
    }
    proof {
        assert(data@.take(n as int) =~= data@);
        lemma_hex_of_len(data@);
    }
    out
}

/// The one-character string holding the hex digit with value `d`.
fn hex_digit_str(d: u8) -> (r: &'static str)
    requires
        d < 16,
    ensures
        r@ =~= seq![hex_digit(d)],
{
    proof {
        reveal_strlit("0");
        reveal_strlit("1");
        reveal_strlit("2");
        reveal_strlit("3");
        reveal_strlit("4");
        reveal_strlit("5");
        reveal_strlit("6");
        reveal_strlit("7");
        reveal_strlit("8");
        reveal_strlit("9");
        reveal_strlit("a");
        reveal_strlit("b");
        reveal_strlit("c");
        reveal_strlit("d");
        reveal_strlit("e");
        reveal_strlit("f");
    }
    if d == 0 {
        "0"
    } else if d == 1 {
        "1"
    } else if d == 2 {
        "2"
    } else if d == 3 {
        "3"
    } else if d == 4 {
        "4"
    } else if d == 5 {
        "5"
    } else if d == 6 {
        "6"
    } else if d == 7 {
        "7"
    } else if d == 8 {
        "8"
    } else if d == 9 {
        "9"
    } else if d == 10 {
        "a"
    } else if d == 11 {
        "b"
    } else if d == 12 {
        "c"
    } else if d == 13 {
        "d"
    } else if d == 14 {
        "e"
    } else {
        "f"
    }
}

/// Hex output is twice as long as its input.
pub proof fn lemma_hex_of_len(data: Seq<u8>)
    ensures
        hex_of(data).len() == 2 * data.len(),
    decreases data.len(),
{
    if data.len() > 0 {
        lemma_hex_of_len(data.drop_last());
    }
}

/// The hex SHA-256 checksum used for file-transfer integrity.
pub fn calculate_checksum(data: &[u8]) -> (r: String)
    ensures
        r@ == hex_of(sha256_of(data@)),
        r@.len() == 64,
{
    let digest = sha256(data);
    hex_encode(digest.as_slice())
}

/// An at-rest blob is a 12-byte nonce followed by the AES-256-GCM sealing of
/// the data under that nonce, with empty associated data.
pub open spec fn at_rest_blob_of(key: Seq<u8>, blob: Seq<u8>, data: Seq<u8>) -> bool {
    &&& blob.len() == data.len() + 28
    &&& blob.skip(12) == aead_seal_of(key, blob.take(12), Seq::<u8>::empty(), data)
}

/// Seals a blob for storage at rest: a fresh random 12-byte nonce followed
/// by the AES-256-GCM sealing of the data under that nonce, with empty
/// associated data.
pub fn encrypt_data(key: &[u8], data: &[u8]) -> (r: Result<Vec<u8>, CryptoError>)
    requires
        key@.len() == 32,
        data@.len() <= AEAD_LEN_MAX,
    ensures
        r is Ok,
        r matches Ok(out) ==> at_rest_blob_of(key@, out@, data@),
{
    let nonce = random_nonce();
    let empty_aad: Vec<u8> = Vec::new();
    proof {
        assert(empty_aad@ =~= Seq::<u8>::empty());
    }
    let sealed = aead_seal(key, nonce.as_slice(), empty_aad.as_slice(), data);
    let ghost nonce_view = nonce@;
    let ghost sealed_view = sealed@;
    let mut out = nonce;
    let mut body = sealed;
    out.append(&mut body);
    proof {
        assert(out@ == nonce_view + sealed_view);
        assert(out@.take(12) =~= nonce_view);
        assert(out@.skip(12) =~= sealed_view);
    }
    Ok(out)
}

/// Opens a blob sealed by [`encrypt_data`]: splits off the 12-byte nonce and
/// opens the rest. Exactly the blobs that are a sealing under the carried
/// nonce open, and they yield the sealed plaintext: opening inverts sealing.
pub fn decrypt_data(key: &[u8], data: &[u8]) -> (r: Result<Vec<u8>, CryptoError>)
    requires
        key@.len() == 32,
    ensures
        r matches Ok(out) ==> at_rest_blob_of(key@, data@, out@),
        forall|m: Seq<u8>|
            m.len() <= AEAD_LEN_MAX && at_rest_blob_of(key@, data@, m) ==> (r matches Ok(out)
                && out@ == m),
        r matches Err(e) ==> e == CryptoError::DecryptionFailed,
{
    if data.len() < 12 {
        return Err(CryptoError::DecryptionFailed);
    }
    let mut nonce: Vec<u8> = Vec::new();
    let mut body: Vec<u8> = Vec::new();
    let n = data.len();
    for i in 0..12usize
        invariant
            n == data@.len(),
            n >= 12,
            nonce@ =~= data@.take(i as int),
    {
        nonce.push(data[i]);
        proof {
            assert(nonce@ =~= data@.take(i + 1));
        }
    }
    for i in 12..n
        invariant
            n == data@.len(),
            n >= 12,
            body@ =~= data@.subrange(12, i as int),
    {
        body.push(data[i]);
        proof {
            assert(body@ =~= data@.subrange(12, i + 1));
        }
    }
    let empty_aad: Vec<u8> = Vec::new();
    proof {
        assert(nonce@ =~= data@.take(12));
        assert(body@ =~= data@.skip(12));
    }
    match aead_open(key, nonce.as_slice(), empty_aad.as_slice(), body.as_slice()) {
        Some(plain) => {
            proof {
                assert(plain@.len() + 16 == body@.len());
            }
            Ok(plain)
        },
        None => Err(CryptoError::DecryptionFailed),
    }
}

} // verus!
