use bluebeam::crypto::{
    aead_open, aead_seal, calculate_checksum, decrypt_data, encrypt_data, generate_fingerprint,
    generate_pin_from_fingerprint, hex_encode, sha256, x25519_generate_keypair,
    compute_shared_secret,
};

#[test]
fn fingerprint_of_all_zero_key_matches_vector() {
    let fp = generate_fingerprint(&[0u8; 32]);
    assert_eq!(fp, "Zmh6rfhivXc=");
    let digest = sha256(&[0u8; 32]);
    assert_eq!(&hex_encode(&digest)[..16], "66687aadf862bd77");
}

#[test]
fn pin_of_vector_fingerprint() {
    let pin = generate_pin_from_fingerprint("Zmh6rfhivXc=");
    assert_eq!(pin, "094442");
}

#[test]
fn pin_is_deterministic_and_six_decimal_digits() {
    let samples = ["", "A", "Zmh6rfhivXc=", "some fingerprint", "0123456789"];
    for s in samples.iter() {
        let first = generate_pin_from_fingerprint(s);
        let second = generate_pin_from_fingerprint(s);
        assert_eq!(first, second);
        assert_eq!(first.len(), 6);
        assert!(first.chars().all(|c| c.is_ascii_digit()));
    }
    // a fingerprint shorter than six characters pads with 'A' (= digit 5)
    assert_eq!(generate_pin_from_fingerprint(""), "555555");
}

#[test]
fn aead_seal_open_round_trip_and_tamper_rejection() {
    let key = [7u8; 32];
    let nonce = [9u8; 12];
    let aad = b"header".to_vec();
    let msg = b"attack at dawn".to_vec();

    let sealed = aead_seal(&key, &nonce, &aad, &msg);
    assert_eq!(sealed.len(), msg.len() + 16);
    let opened = aead_open(&key, &nonce, &aad, &sealed).expect("genuine ciphertext must open");
    assert_eq!(opened, msg);

    // any bit flip in the ciphertext, the aad, the nonce or the key fails
    for i in 0..sealed.len() {
        let mut bad = sealed.clone();
        bad[i] ^= 1;
        assert!(aead_open(&key, &nonce, &aad, &bad).is_none());
    }
    let mut bad_aad = aad.clone();
    bad_aad[0] ^= 1;
    assert!(aead_open(&key, &nonce, &bad_aad, &sealed).is_none());
    let mut bad_nonce = nonce;
    bad_nonce[0] ^= 1;
    assert!(aead_open(&key, &bad_nonce, &aad, &sealed).is_none());
    let mut bad_key = key;
    bad_key[0] ^= 1;
    assert!(aead_open(&bad_key, &nonce, &aad, &sealed).is_none());
}

#[test]
fn at_rest_blob_round_trip_and_tamper_rejection() {
    let key = [3u8; 32];
    let data = b"settings blob".to_vec();
    let blob = encrypt_data(&key, &data).unwrap();
    assert_eq!(blob.len(), data.len() + 28);
    assert_eq!(decrypt_data(&key, &blob).unwrap(), data);

    let mut bad = blob.clone();
    let last = bad.len() - 1;
    bad[last] ^= 1;
    assert!(decrypt_data(&key, &bad).is_err());
    assert!(decrypt_data(&key, &blob[..11]).is_err());
}

#[test]
fn checksum_is_hex_sha256() {
    let sum = calculate_checksum(b"");
    assert_eq!(sum, "e3b0c44298fc1c149afbf4c8996fb92427ae41e4649b934ca495991b7852b855");
    assert_eq!(calculate_checksum(b"abc").len(), 64);
}

#[test]
fn diffie_hellman_agrees_on_both_sides() {
    let (pub_a, sec_a) = x25519_generate_keypair();
    let (pub_b, sec_b) = x25519_generate_keypair();
    let k_ab = compute_shared_secret(&sec_a, &pub_b);
    let k_ba = compute_shared_secret(&sec_b, &pub_a);
    assert_eq!(k_ab, k_ba);
    assert_eq!(k_ab.len(), 32);
}
