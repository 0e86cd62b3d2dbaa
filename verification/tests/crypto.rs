use zssp::error::Error;
use zssp::handshake::{initiator_master, responder_master};
use zssp::keys::{cipher_key, derive_master, nonce, KeyState, Role};
use zssp::primitives::{bytes_equal, copy_bytes, expand, mix, open, seal, KeyPair};
use zssp::wire::{parse, Packet, ProtectedHeader, ProtectedKind};

fn unhex(text: &str) -> Vec<u8> {
    let digits: Vec<u8> = text.bytes().filter(|b| !b.is_ascii_whitespace()).collect();
    assert_eq!(digits.len() % 2, 0);
    digits
        .chunks(2)
        .map(|pair| {
            let hi = (pair[0] as char).to_digit(16).unwrap() as u8;
            let lo = (pair[1] as char).to_digit(16).unwrap() as u8;
            hi * 16 + lo
        })
        .collect()
}

fn scalar(value: u8) -> Vec<u8> {
    let mut secret = vec![0u8; 48];
    secret[47] = value;
    secret
}

fn paired_keys(limit_generation: u64) -> (KeyState, KeyState) {
    let secret = vec![7u8; 48];
    let a = KeyState::derive(secret.clone(), limit_generation, Role::Initiator, true, 0, 1000);
    let b = KeyState::derive(secret, limit_generation, Role::Responder, false, 0, 1000);
    (a, b)
}

fn header_of(datagram: &[u8]) -> (ProtectedHeader, Vec<u8>) {
    match parse(datagram) {
        Ok(Packet::Protected { header, sealed }) => (header, sealed),
        other => panic!("unexpected {:?}", other),
    }
}

#[test]
fn bytes_compare_by_content() {
    assert!(bytes_equal(&[], &[]));
    assert!(bytes_equal(&[1, 2, 3], &[1, 2, 3]));
    assert!(!bytes_equal(&[1, 2, 3], &[1, 2, 4]));
    assert!(!bytes_equal(&[1, 2, 3], &[1, 2]));
    assert!(!bytes_equal(&[], &[0]));
    assert_eq!(copy_bytes(&[4, 5]), vec![4, 5]);
}

#[test]
fn public_key_of_one_is_the_generator() {
    let pair = KeyPair::from_secret(&scalar(1)).unwrap();
    let generator = unhex(
        "03 aa87ca22be8b05378eb1c71ef320ad746e1d3b628ba79b9859f741e082542a38
         5502f25dbf55296c3a545e3872760ab7",
    );
    assert_eq!(pair.public, generator);
    assert_eq!(pair.public_key_bytes(), &generator);
    assert_eq!(pair.secret, scalar(1));
    let copy = pair.duplicate();
    assert_eq!(copy.secret, pair.secret);
    assert_eq!(copy.public, pair.public);
}

#[test]
fn secrets_that_are_no_scalar_are_refused() {
    assert!(matches!(KeyPair::from_secret(&[0u8; 48]), Err(Error::InvalidKeyEncoding)));
    assert!(matches!(KeyPair::from_secret(&[0xffu8; 48]), Err(Error::InvalidKeyEncoding)));
    assert!(matches!(KeyPair::from_secret(&[1u8; 47]), Err(Error::InvalidKeyEncoding)));
    assert!(matches!(KeyPair::from_secret(&[1u8; 49]), Err(Error::InvalidKeyEncoding)));
    assert!(matches!(KeyPair::from_secret(&[1u8; 32]), Err(Error::InvalidKeyEncoding)));
    assert!(matches!(KeyPair::from_secret(&[]), Err(Error::InvalidKeyEncoding)));
}

#[test]
fn generated_keys_are_fresh() {
    let a = KeyPair::generate().unwrap();
    let b = KeyPair::generate().unwrap();
    assert_eq!(a.secret.len(), 48);
    assert_eq!(a.public.len(), 49);
    assert_ne!(a.secret, b.secret);
    assert_ne!(a.public, b.public);
    assert_eq!(KeyPair::from_secret(&a.secret).unwrap().public, a.public);
}

#[test]
fn agreement_is_the_same_from_both_sides() {
    let a = KeyPair::from_secret(&scalar(2)).unwrap();
    let b = KeyPair::from_secret(&scalar(3)).unwrap();
    let ab = a.agree(&b.public).unwrap();
    let ba = b.agree(&a.public).unwrap();
    assert_eq!(ab, ba);
    assert_eq!(ab.len(), 48);
    assert_ne!(ab, a.secret);
    assert_ne!(&ab[..], &b.public[1..]);
    let six = KeyPair::from_secret(&scalar(6)).unwrap();
    assert_eq!(&ab[..], &six.public[1..]);
    let c = KeyPair::generate().unwrap();
    let d = KeyPair::generate().unwrap();
    assert_eq!(c.agree(&d.public).unwrap(), d.agree(&c.public).unwrap());
}

#[test]
fn agreement_refuses_what_is_no_point() {
    let a = KeyPair::from_secret(&scalar(2)).unwrap();
    assert!(matches!(a.agree(&[]), Err(Error::InvalidKeyEncoding)));
    assert!(matches!(a.agree(&[2u8; 48]), Err(Error::InvalidKeyEncoding)));
    assert!(matches!(a.agree(&[0u8; 49]), Err(Error::InvalidKeyEncoding)));
    let mut off_curve = vec![0u8; 49];
    off_curve[0] = 2;
    off_curve[48] = 1;
    assert!(matches!(a.agree(&off_curve), Err(Error::InvalidKeyEncoding)));
    let b = KeyPair::from_secret(&scalar(3)).unwrap();
    let mut uncompressed_tag = b.public.clone();
    uncompressed_tag[0] = 4;
    assert!(matches!(a.agree(&uncompressed_tag), Err(Error::InvalidKeyEncoding)));
}

#[test]
fn mix_is_hmac_sha384() {
    let tag = mix(&[0x0b; 20], b"Hi There");
    assert_eq!(
        tag,
        unhex(
            "afd03944d84895626b0825f4ab46907f15f9dadbe4101ec682aa034c7cebc59c
             faea9ea9076ede7f4af152e8b2fa9cb6"
        )
    );
    assert_eq!(expand(&[0x0b; 20], 7), mix(&[0x0b; 20], &[7]));
    assert_ne!(expand(&[0x0b; 20], 7), expand(&[0x0b; 20], 8));
    assert_eq!(mix(&[], &[]).len(), 48);
}

#[test]
fn master_mixes_in_order() {
    let master = derive_master(&[1], &[2], &[3], &[4], &[5]);
    let expected = mix(&mix(&mix(&mix(&[1], &[2]), &[3]), &[4]), &[5]);
    assert_eq!(master, expected);
    assert_ne!(master, derive_master(&[1], &[3], &[2], &[4], &[5]));
    assert_ne!(master, derive_master(&[], &[2], &[3], &[4], &[5]));
    assert_ne!(master, derive_master(&[1], &[2], &[3], &[4], &[6]));
}

#[test]
fn seal_is_aes_256_gcm() {
    let sealed = seal(&[0u8; 32], &[0u8; 12], &[], &[0u8; 16]).unwrap();
    assert_eq!(
        sealed,
        unhex("cea7403d4d606b6e074ec5d3baf39d18 d0d1c8a799996bf0265b98b5d48ab919")
    );
    let empty = seal(&[0u8; 32], &[0u8; 12], &[], &[]).unwrap();
    assert_eq!(empty, unhex("530f8afbc74536b9a963b4f1c4cb738b"));
    assert_eq!(open(&[0u8; 32], &[0u8; 12], &[], &sealed), Ok(vec![0u8; 16]));
    assert_eq!(open(&[0u8; 32], &[0u8; 12], &[], &empty), Ok(vec![]));
}

#[test]
fn open_refuses_what_was_changed() {
    let key = [5u8; 32];
    let iv = [6u8; 12];
    let sealed = seal(&key, &iv, b"header", b"payload").unwrap();
    assert_eq!(sealed.len(), 7 + 16);
    assert_eq!(open(&key, &iv, b"header", &sealed), Ok(b"payload".to_vec()));
    assert_eq!(open(&key, &iv, b"headex", &sealed), Err(Error::AuthenticationFailed));
    assert_eq!(open(&[4u8; 32], &iv, b"header", &sealed), Err(Error::AuthenticationFailed));
    assert_eq!(open(&key, &[7u8; 12], b"header", &sealed), Err(Error::AuthenticationFailed));
    for i in 0..sealed.len() {
        let mut changed = sealed.clone();
        changed[i] ^= 1;
        assert_eq!(open(&key, &iv, b"header", &changed), Err(Error::AuthenticationFailed));
    }
    assert_eq!(open(&key, &iv, b"header", &sealed[..15]), Err(Error::AuthenticationFailed));
    assert_eq!(open(&key, &iv, b"header", &[]), Err(Error::AuthenticationFailed));
}

#[test]
fn nonce_is_counter_and_kind() {
    assert_eq!(
        nonce(0x0102030405060708, ProtectedKind::Data),
        vec![1, 2, 3, 4, 5, 6, 7, 8, 4, 0, 0, 0]
    );
    assert_eq!(nonce(1, ProtectedKind::RekeyInit), vec![0, 0, 0, 0, 0, 0, 0, 1, 5, 0, 0, 0]);
    assert_eq!(nonce(1, ProtectedKind::RekeyAck), vec![0, 0, 0, 0, 0, 0, 0, 1, 6, 0, 0, 0]);
}

#[test]
fn cipher_key_is_the_head_of_the_expansion() {
    let secret = [9u8; 48];
    assert_eq!(cipher_key(&secret, 4), expand(&secret, 4)[..32].to_vec());
    assert_ne!(cipher_key(&secret, 4), cipher_key(&secret, 5));
}

#[test]
fn derived_keys_fit_together() {
    let (a, b) = paired_keys(1);
    assert_eq!(a.generation, 1);
    assert_eq!(a.send_key, b.receive_key);
    assert_eq!(a.receive_key, b.send_key);
    assert_ne!(a.send_key, a.receive_key);
    assert_eq!(a.fingerprint, b.fingerprint);
    assert_eq!(a.fingerprint, expand(&[7u8; 48], 6));
    assert_eq!(a.send_key, cipher_key(&[7u8; 48], 4));
    assert_eq!(a.receive_key, cipher_key(&[7u8; 48], 5));
    assert_eq!((a.send_counter, a.received, a.created_at, a.rekey_age), (0, 0, 0, 1000));
    assert!(a.initiated_locally);
    assert!(!b.initiated_locally);
    assert_eq!(a.uses(), 0);
}

#[test]
fn sealed_datagram_layout_and_counters() {
    let (mut a, mut b) = paired_keys(1);
    let first = a.seal(77, ProtectedKind::Data, 5, 0, 2, b"hello", 100).unwrap();
    let second = a.seal(77, ProtectedKind::Data, 5, 1, 2, b"world", 100).unwrap();
    assert_eq!(first.len(), 38 + 5 + 16);
    assert_eq!(a.send_counter, 2);
    let (h1, s1) = header_of(&first);
    let (h2, s2) = header_of(&second);
    assert_eq!(
        h1,
        ProtectedHeader {
            recipient_id: 77,
            kind: ProtectedKind::Data,
            generation: 1,
            counter: 1,
            message_id: 5,
            index: 0,
            count: 2
        }
    );
    assert_eq!(h2.counter, 2);
    assert_eq!(s1, seal(&a.send_key, &nonce(1, ProtectedKind::Data), &first[..38], b"hello").unwrap());
    assert_eq!(b.open(&h2, &s2, 100), Ok(b"world".to_vec()));
    assert_eq!(b.open(&h1, &s1, 100), Ok(b"hello".to_vec()));
    assert_eq!(b.received, 2);
    assert_eq!(b.uses(), 2);
    assert_eq!(b.window.highest, 2);
}

#[test]
fn key_refuses_replay_and_forgery() {
    let (mut a, mut b) = paired_keys(1);
    let datagram = a.seal(77, ProtectedKind::Data, 0, 0, 1, b"once", 100).unwrap();
    let (header, sealed) = header_of(&datagram);
    let mut forged = sealed.clone();
    forged[0] ^= 0x80;
    assert_eq!(b.open(&header, &forged, 100), Err(Error::AuthenticationFailed));
    assert_eq!(b.received, 0);
    assert!(!b.window.is_replay(1));
    let mut moved = header;
    moved.counter = 2;
    assert_eq!(b.open(&moved, &sealed, 100), Err(Error::AuthenticationFailed));
    let mut retagged = header;
    retagged.message_id = 1;
    assert_eq!(b.open(&retagged, &sealed, 100), Err(Error::AuthenticationFailed));
    assert_eq!(b.open(&header, &sealed, 100), Ok(b"once".to_vec()));
    assert_eq!(b.open(&header, &sealed, 100), Err(Error::ReplayDetected));
    assert_eq!(b.open(&header, &forged, 100), Err(Error::ReplayDetected));
    assert_eq!(b.received, 1);
    assert_eq!(a.open(&header, &sealed, 100), Err(Error::AuthenticationFailed));
}

#[test]
fn key_expires_at_its_ceiling() {
    let (mut a, mut b) = paired_keys(1);
    let d1 = a.seal(77, ProtectedKind::Data, 0, 0, 1, b"1", 2).unwrap();
    let d2 = a.seal(77, ProtectedKind::Data, 1, 0, 1, b"2", 2).unwrap();
    assert_eq!(a.seal(77, ProtectedKind::Data, 2, 0, 1, b"3", 2), Err(Error::SessionExpired));
    assert_eq!(a.seal(77, ProtectedKind::Data, 2, 0, 1, b"3", 2), Err(Error::SessionExpired));
    assert_eq!(a.send_counter, 2);
    let (h1, s1) = header_of(&d1);
    let (h2, s2) = header_of(&d2);
    assert_eq!(b.open(&h1, &s1, 1), Ok(b"1".to_vec()));
    assert_eq!(b.open(&h2, &s2, 1), Err(Error::SessionExpired));
    assert_eq!(b.open(&h1, &s1, 1), Err(Error::SessionExpired));
    assert_eq!(b.seal(1, ProtectedKind::Data, 0, 0, 1, b"x", 1), Err(Error::SessionExpired));
    assert_eq!(b.received, 1);
    assert_eq!(b.open(&h2, &s2, 2), Ok(b"2".to_vec()));
}

#[test]
fn fragments_are_sealed_under_consecutive_counters() {
    let (mut a, mut b) = paired_keys(1);
    let _ = a.seal(77, ProtectedKind::Data, 0, 0, 1, b"first", 100).unwrap();
    let pieces = vec![vec![1u8; 3], vec![2u8; 3], vec![3u8; 1]];
    let datagrams = a.seal_fragments(77, 9, &pieces, 100);
    assert_eq!(datagrams.len(), 3);
    assert_eq!(a.send_counter, 4);
    for (i, datagram) in datagrams.iter().enumerate() {
        let (header, sealed) = header_of(datagram);
        assert_eq!(header.counter, 2 + i as u64);
        assert_eq!((header.message_id, header.index, header.count), (9, i as u16, 3));
        assert_eq!(b.open(&header, &sealed, 100), Ok(pieces[i].clone()));
    }
}

#[test]
fn ratchet_steps_the_generation() {
    let (a, b) = paired_keys(4);
    let a2 = a.ratchet(&[1, 2, 3], Role::Initiator, false, 50, 2000);
    let b2 = b.ratchet(&[1, 2, 3], Role::Responder, true, 60, 3000);
    assert_eq!(a2.generation, 5);
    assert_eq!(b2.generation, 5);
    assert_eq!(a2.send_key, b2.receive_key);
    assert_eq!(a2.receive_key, b2.send_key);
    assert_eq!(a2.fingerprint, b2.fingerprint);
    assert_ne!(a2.fingerprint, a.fingerprint);
    assert_ne!(a2.send_key, a.send_key);
    assert_eq!(a2.ratchet_key, mix(&expand(&a.ratchet_key, 3), &[1, 2, 3]));
    assert_eq!((a2.send_counter, a2.received, a2.created_at, a2.rekey_age), (0, 0, 50, 2000));
    assert!(!a2.initiated_locally);
    assert!(b2.initiated_locally);
    let other = a.ratchet(&[1, 2, 4], Role::Initiator, false, 50, 2000);
    assert_ne!(other.fingerprint, a2.fingerprint);
}

#[test]
fn rekey_falls_due_by_use_or_by_age() {
    let (mut a, _) = paired_keys(1);
    assert!(!a.rekey_due(999, 2));
    assert!(a.rekey_due(1000, 2));
    assert!(a.rekey_due(5000, 2));
    let _ = a.seal(77, ProtectedKind::Data, 0, 0, 1, b"1", 100).unwrap();
    assert!(!a.rekey_due(0, 2));
    let _ = a.seal(77, ProtectedKind::Data, 1, 0, 1, b"2", 100).unwrap();
    assert!(a.rekey_due(0, 2));
}

#[test]
fn both_sides_derive_the_same_master() {
    let alice = KeyPair::generate().unwrap();
    let bob = KeyPair::generate().unwrap();
    let alice_e = KeyPair::generate().unwrap();
    let bob_e = KeyPair::generate().unwrap();
    let at_alice =
        initiator_master(&alice, &alice_e, &bob.public, &bob_e.public, b"psk", b"transcript").unwrap();
    let at_bob =
        responder_master(&bob, &bob_e, &alice.public, &alice_e.public, b"psk", b"transcript").unwrap();
    assert_eq!(at_alice, at_bob);
    assert_eq!(at_alice.len(), 48);
    let other_psk =
        responder_master(&bob, &bob_e, &alice.public, &alice_e.public, b"psx", b"transcript").unwrap();
    assert_ne!(at_alice, other_psk);
    let mallory = KeyPair::generate().unwrap();
    let impostor =
        responder_master(&mallory, &bob_e, &alice.public, &alice_e.public, b"psk", b"transcript")
            .unwrap();
    assert_ne!(at_alice, impostor);
    assert!(matches!(
        initiator_master(&alice, &alice_e, &[0u8; 49], &bob_e.public, b"psk", b"transcript"),
        Err(Error::InvalidKeyEncoding)
    ));
    assert!(matches!(
        responder_master(&bob, &bob_e, &alice.public, &[], b"psk", b"transcript"),
        Err(Error::InvalidKeyEncoding)
    ));
}

#[test]
fn wipe_zeroes_in_place() {
    let mut bytes = vec![1u8, 2, 3];
    zssp::primitives::wipe(&mut bytes);
    assert_eq!(bytes, vec![0, 0, 0]);
    let mut empty: Vec<u8> = Vec::new();
    zssp::primitives::wipe(&mut empty);
    assert!(empty.is_empty());
    let (mut a, _) = paired_keys(1);
    a.erase();
    assert_eq!(a.send_key, vec![0u8; 32]);
    assert_eq!(a.receive_key, vec![0u8; 32]);
    assert_eq!(a.ratchet_key, vec![0u8; 48]);
    assert_eq!(a.generation, 1);
}
