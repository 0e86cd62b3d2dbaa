use zssp::context::{ApplicationLayer, Context, ReceiveResult, Received};
use zssp::error::Error;
use zssp::keys::Role;
use zssp::primitives::KeyPair;
use zssp::session::{Duty, RemoteIdentity, SessionState};
use zssp::settings::Settings;
use zssp::wire::{parse, Packet, ProtectedKind, INIT_SIZE, RESPONSE_SIZE};

struct Admit;

impl ApplicationLayer for Admit {
    fn resolve(&self, remote_static_public: &[u8]) -> Option<RemoteIdentity> {
        Some(RemoteIdentity {
            public_key: remote_static_public.to_vec(),
            psk: b"shared beforehand".to_vec(),
            application_data: b"alice".to_vec(),
        })
    }
}

struct Refuse;

impl ApplicationLayer for Refuse {
    fn resolve(&self, _remote_static_public: &[u8]) -> Option<RemoteIdentity> {
        None
    }
}

struct WrongSecret;

impl ApplicationLayer for WrongSecret {
    fn resolve(&self, remote_static_public: &[u8]) -> Option<RemoteIdentity> {
        Some(RemoteIdentity {
            public_key: remote_static_public.to_vec(),
            psk: b"something else".to_vec(),
            application_data: Vec::new(),
        })
    }
}

fn standard() -> Settings {
    Settings::new(1500, 300000, 2147483648, 7200000, 600000, 2000, 500).unwrap()
}

fn context(settings: Settings) -> Context {
    Context::new(KeyPair::generate().unwrap(), settings)
}

fn consumed(received: Result<Received, Error>, id: u64, replies: usize) -> Vec<Vec<u8>> {
    let received = received.unwrap();
    assert!(matches!(received.result, ReceiveResult::OkConsumed(Some(found)) if found == id));
    assert_eq!(received.replies.len(), replies);
    received.replies
}

fn establish(settings: Settings) -> (Context, Context, u64, u64) {
    let mut alice = context(settings);
    let mut bob = context(settings);
    let bob_public = bob.local.public.clone();
    let (alice_id, init) = alice.open(&bob_public, b"shared beforehand", b"bob", 0).unwrap();
    let bob_id = bob.next_id;
    let response = consumed(bob.receive(&Admit, &init, 0), bob_id, 1).remove(0);
    let confirm = consumed(alice.receive(&Admit, &response, 0), alice_id, 1).remove(0);
    let confirmed = bob.receive(&Admit, &confirm, 0).unwrap();
    assert!(confirmed.replies.is_empty());
    match confirmed.result {
        ReceiveResult::OkNewSession(id, data) => {
            assert_eq!(id, bob_id);
            assert_eq!(data, b"alice".to_vec());
        }
        other => panic!("unexpected {:?}", other),
    }
    (alice, bob, alice_id, bob_id)
}

fn deliver(to: &mut Context, datagrams: &[Vec<u8>]) -> Vec<Vec<u8>> {
    let mut messages = Vec::new();
    for datagram in datagrams {
        let received = to.receive(&Admit, datagram, 0).unwrap();
        assert!(received.replies.is_empty());
        match received.result {
            ReceiveResult::OkData(_, message) => messages.push(message),
            ReceiveResult::OkConsumed(Some(_)) => {}
            other => panic!("unexpected {:?}", other),
        }
    }
    messages
}

#[test]
fn handshake_converges_on_keys_and_identifiers() {
    let (alice, bob, alice_id, bob_id) = establish(standard());
    assert!(alice.established(alice_id));
    assert!(bob.established(bob_id));
    assert!(!alice.established(alice_id + 1));
    let a = &alice.sessions[0];
    let b = &bob.sessions[0];
    assert_eq!((a.id, a.remote_id), (alice_id, bob_id));
    assert_eq!((b.id, b.remote_id), (bob_id, alice_id));
    assert_eq!(a.role, Role::Initiator);
    assert_eq!(b.role, Role::Responder);
    assert_eq!(a.state, SessionState::Established);
    assert_eq!(b.state, SessionState::Established);
    assert_eq!(a.remote_static, bob.local.public);
    assert_eq!(b.remote_static, alice.local.public);
    let ka = a.current.as_ref().unwrap();
    let kb = b.current.as_ref().unwrap();
    assert_eq!(ka.ratchet_key, kb.ratchet_key);
    assert_eq!(ka.send_key, kb.receive_key);
    assert_eq!(ka.receive_key, kb.send_key);
    assert_eq!(alice.key_info(alice_id), Some((1, ka.fingerprint.clone())));
    assert_eq!(alice.key_info(alice_id), bob.key_info(bob_id));
    assert_eq!(alice.key_info(99), None);
    assert!(ka.initiated_locally);
    assert!(!kb.initiated_locally);
    assert!(a.ephemeral.is_none());
    assert_eq!(alice.session_count(), 1);
    assert_eq!(bob.session_count(), 1);
}

#[test]
fn handshake_messages_have_their_layout() {
    let mut alice = context(standard());
    let mut bob = context(standard());
    let (alice_id, init) = alice.open(&bob.local.public.clone(), b"shared beforehand", b"", 5).unwrap();
    assert_eq!(alice_id, 1);
    assert_eq!(init.len(), INIT_SIZE);
    match parse(&init) {
        Ok(Packet::Init { sender_id, ephemeral, static_public }) => {
            assert_eq!(sender_id, alice_id);
            assert_eq!(static_public, alice.local.public);
            assert_eq!(ephemeral, alice.sessions[0].ephemeral.as_ref().unwrap().public);
        }
        other => panic!("unexpected {:?}", other),
    }
    assert_eq!(alice.sessions[0].state, SessionState::SentInit);
    assert_eq!(alice.sessions[0].init_bytes, init);
    assert_eq!(alice.sessions[0].last_message, init);
    assert_eq!(alice.sessions[0].created_at, 5);
    assert!(alice.key_info(alice_id).is_none());
    assert!(!alice.established(alice_id));
    let response = consumed(bob.receive(&Admit, &init, 6), 1, 1).remove(0);
    assert_eq!(response.len(), RESPONSE_SIZE);
    match parse(&response) {
        Ok(Packet::Response { recipient_id, sender_id, .. }) => {
            assert_eq!((recipient_id, sender_id), (alice_id, 1));
        }
        other => panic!("unexpected {:?}", other),
    }
    assert_eq!(bob.sessions[0].state, SessionState::SentResponse);
    assert_eq!(bob.sessions[0].last_message, response);
    assert_eq!(bob.sessions[0].application_data, b"alice".to_vec());
    assert!(!bob.established(1));
}

#[test]
fn second_session_gets_the_next_identifier() {
    let mut alice = context(standard());
    let bob = context(standard());
    let carol = context(standard());
    let (first, _) = alice.open(&bob.local.public, b"", b"", 0).unwrap();
    let (second, _) = alice.open(&carol.local.public, b"", b"", 0).unwrap();
    assert_eq!((first, second), (1, 2));
    assert_eq!(alice.position(1), Some(0));
    assert_eq!(alice.position(2), Some(1));
    assert_eq!(alice.position(3), None);
    assert!(alice.close(1));
    assert!(!alice.close(1));
    assert_eq!(alice.position(2), Some(0));
    let (third, _) = alice.open(&bob.local.public, b"", b"", 0).unwrap();
    assert_eq!(third, 3);
}

#[test]
fn open_refuses_a_key_of_the_wrong_length() {
    let mut alice = context(standard());
    assert!(matches!(alice.open(&[2u8; 48], b"", b"", 0), Err(Error::InvalidKeyEncoding)));
    assert!(matches!(alice.open(&[], b"", b"", 0), Err(Error::InvalidKeyEncoding)));
    assert!(matches!(alice.open(&[0u8; 49], b"", b"", 0), Err(Error::InvalidKeyEncoding)));
    let mut off_curve = vec![0u8; 49];
    off_curve[0] = 3;
    off_curve[48] = 1;
    assert!(matches!(alice.open(&off_curve, b"", b"", 0), Err(Error::InvalidKeyEncoding)));
    assert_eq!(alice.session_count(), 0);
    assert_eq!(alice.next_id, 1);
}

#[test]
fn responder_rejects_an_unknown_static_key() {
    let mut alice = context(standard());
    let mut bob = context(standard());
    let (_, init) = alice.open(&bob.local.public.clone(), b"", b"", 0).unwrap();
    let received = bob.receive(&Refuse, &init, 0).unwrap();
    assert!(matches!(received.result, ReceiveResult::Rejected));
    assert!(received.replies.is_empty());
    assert_eq!(bob.session_count(), 0);
    assert_eq!(bob.next_id, 1);
}

#[test]
fn unsupported_version_is_reported_and_creates_nothing() {
    let mut alice = context(standard());
    let mut bob = context(standard());
    let (_, mut init) = alice.open(&bob.local.public.clone(), b"", b"", 0).unwrap();
    init[0] = 2;
    assert!(matches!(bob.receive(&Admit, &init, 0), Err(Error::UnknownProtocolVersion)));
    assert_eq!(bob.session_count(), 0);
    init[0] = 0;
    assert!(matches!(bob.receive(&Admit, &init, 0), Err(Error::UnknownProtocolVersion)));
    assert_eq!(bob.session_count(), 0);
}

#[test]
fn malformed_datagrams_are_reported_and_change_nothing() {
    let (mut alice, _, _, _) = establish(standard());
    assert!(matches!(alice.receive(&Admit, &[], 0), Err(Error::MalformedPacket)));
    assert!(matches!(alice.receive(&Admit, &[1, 2, 3], 0), Err(Error::MalformedPacket)));
    assert!(matches!(alice.receive(&Admit, &[1u8; 200], 0), Err(Error::MalformedPacket)));
    assert_eq!(alice.session_count(), 1);
    assert!(alice.established(1));
}

#[test]
fn initiation_with_a_key_off_the_curve_is_refused() {
    let mut alice = context(standard());
    let mut bob = context(standard());
    let (_, mut init) = alice.open(&bob.local.public.clone(), b"", b"", 0).unwrap();
    for byte in init[18..67].iter_mut() {
        *byte = 0;
    }
    assert!(matches!(bob.receive(&Admit, &init, 0), Err(Error::InvalidKeyEncoding)));
    assert_eq!(bob.session_count(), 0);
}

#[test]
fn wrong_pre_shared_secret_fails_authentication() {
    let mut alice = context(standard());
    let mut bob = context(standard());
    let (alice_id, init) = alice.open(&bob.local.public.clone(), b"shared beforehand", b"", 0).unwrap();
    let response = consumed(bob.receive(&WrongSecret, &init, 0), 1, 1).remove(0);
    assert!(matches!(alice.receive(&Admit, &response, 0), Err(Error::AuthenticationFailed)));
    assert!(!alice.established(alice_id));
    assert_eq!(alice.sessions[0].state, SessionState::SentInit);
}

#[test]
fn response_from_an_impostor_fails_authentication() {
    let mut alice = context(standard());
    let bob = context(standard());
    let mut mallory = context(standard());
    let (alice_id, init) = alice.open(&bob.local.public, b"shared beforehand", b"", 0).unwrap();
    let response = consumed(mallory.receive(&Admit, &init, 0), 1, 1).remove(0);
    assert!(matches!(alice.receive(&Admit, &response, 0), Err(Error::AuthenticationFailed)));
    assert!(!alice.established(alice_id));
}

#[test]
fn tampered_handshake_messages_fail() {
    let mut alice = context(standard());
    let mut bob = context(standard());
    let (_, init) = alice.open(&bob.local.public.clone(), b"shared beforehand", b"", 0).unwrap();
    let response = consumed(bob.receive(&Admit, &init, 0), 1, 1).remove(0);
    let mut bad_tag = response.clone();
    bad_tag[RESPONSE_SIZE - 1] ^= 1;
    assert!(matches!(alice.receive(&Admit, &bad_tag, 0), Err(Error::AuthenticationFailed)));
    let mut other_session = response.clone();
    other_session[8] = 9;
    assert!(matches!(alice.receive(&Admit, &other_session, 0), Err(Error::SessionExpired)));
    let confirm = consumed(alice.receive(&Admit, &response, 0), 1, 1).remove(0);
    let mut bad_confirm = confirm.clone();
    bad_confirm[57] ^= 1;
    assert!(matches!(bob.receive(&Admit, &bad_confirm, 0), Err(Error::AuthenticationFailed)));
    assert!(!bob.established(1));
    assert!(matches!(
        bob.receive(&Admit, &confirm, 0).unwrap().result,
        ReceiveResult::OkNewSession(1, _)
    ));
}

#[test]
fn repeated_handshake_messages_are_answered_alike() {
    let mut alice = context(standard());
    let mut bob = context(standard());
    let (alice_id, init) = alice.open(&bob.local.public.clone(), b"shared beforehand", b"", 0).unwrap();
    let response = consumed(bob.receive(&Admit, &init, 0), 1, 1).remove(0);
    let again = consumed(bob.receive(&Admit, &init, 10), 1, 1).remove(0);
    assert_eq!(again, response);
    assert_eq!(bob.session_count(), 1);
    let confirm = consumed(alice.receive(&Admit, &response, 0), alice_id, 1).remove(0);
    let confirm_again = consumed(alice.receive(&Admit, &response, 20), alice_id, 1).remove(0);
    assert_eq!(confirm_again, confirm);
    assert!(matches!(
        bob.receive(&Admit, &confirm, 0).unwrap().result,
        ReceiveResult::OkNewSession(1, _)
    ));
    assert!(consumed(bob.receive(&Admit, &confirm_again, 0), 1, 0).is_empty());
    assert!(matches!(bob.receive(&Admit, &response, 0), Err(Error::MalformedPacket)));
    assert!(matches!(alice.receive(&Admit, &confirm, 0), Err(Error::MalformedPacket)));
}

#[test]
fn large_message_is_fragmented_and_reassembled() {
    let (mut alice, mut bob, alice_id, bob_id) = establish(standard());
    let message: Vec<u8> = (0..14000u32).map(|i| (i % 251) as u8).collect();
    let datagrams = alice.send(alice_id, &message).unwrap();
    assert_eq!(datagrams.len(), 10);
    assert!(datagrams.iter().all(|d| d.len() <= 1500));
    assert!(datagrams[..9].iter().all(|d| d.len() == 1500));
    assert_eq!(datagrams[9].len(), 54 + 14000 - 9 * 1446);
    for (i, datagram) in datagrams.iter().enumerate() {
        match parse(datagram) {
            Ok(Packet::Protected { header, .. }) => {
                assert_eq!(header.recipient_id, bob_id);
                assert_eq!(header.kind, ProtectedKind::Data);
                assert_eq!(header.generation, 1);
                assert_eq!(header.counter, 1 + i as u64);
                assert_eq!((header.message_id, header.index, header.count), (0, i as u16, 10));
            }
            other => panic!("unexpected {:?}", other),
        }
    }
    assert_eq!(deliver(&mut bob, &datagrams), vec![message.clone()]);
    assert_eq!(alice.sessions[0].next_message_id, 1);
    assert_eq!(alice.sessions[0].current.as_ref().unwrap().send_counter, 10);
    assert_eq!(bob.sessions[0].current.as_ref().unwrap().received, 10);
    let echoed = bob.send(bob_id, &message).unwrap();
    assert_eq!(deliver(&mut alice, &echoed), vec![message]);
}

#[test]
fn fragments_may_arrive_in_any_order() {
    let (mut alice, mut bob, alice_id, _) = establish(standard());
    let first: Vec<u8> = vec![1; 4000];
    let second: Vec<u8> = vec![2; 3000];
    let mut datagrams = alice.send(alice_id, &first).unwrap();
    datagrams.extend(alice.send(alice_id, &second).unwrap());
    assert_eq!(datagrams.len(), 6);
    datagrams.reverse();
    assert_eq!(deliver(&mut bob, &datagrams), vec![second, first]);
    assert_eq!(bob.sessions[0].reassembler.len(), 0);
}

#[test]
fn messages_of_every_size_arrive_intact() {
    let (mut alice, mut bob, alice_id, _) = establish(standard());
    for len in [0usize, 1, 1445, 1446, 1447, 2892, 2893, 64 * 1446] {
        let message: Vec<u8> = (0..len).map(|i| (i % 253) as u8).collect();
        let datagrams = alice.send(alice_id, &message).unwrap();
        assert_eq!(datagrams.len(), if len == 0 { 1 } else { (len + 1445) / 1446 });
        assert_eq!(deliver(&mut bob, &datagrams), vec![message]);
    }
    assert!(matches!(
        alice.send(alice_id, &vec![0u8; 64 * 1446 + 1]),
        Err(Error::ResourceExhausted)
    ));
    assert!(alice.established(alice_id));
}

#[test]
fn replayed_datagram_is_detected() {
    let (mut alice, mut bob, alice_id, bob_id) = establish(standard());
    let datagrams = alice.send(alice_id, b"only once").unwrap();
    assert_eq!(datagrams.len(), 1);
    let first = bob.receive(&Admit, &datagrams[0], 0).unwrap();
    assert!(matches!(first.result, ReceiveResult::OkData(id, ref m) if id == bob_id && m == b"only once"));
    assert!(matches!(bob.receive(&Admit, &datagrams[0], 0), Err(Error::ReplayDetected)));
    assert!(matches!(bob.receive(&Admit, &datagrams[0], 1), Err(Error::ReplayDetected)));
    assert!(bob.established(bob_id));
    let more = alice.send(alice_id, b"next").unwrap();
    assert_eq!(deliver(&mut bob, &more), vec![b"next".to_vec()]);
    assert!(matches!(bob.receive(&Admit, &datagrams[0], 0), Err(Error::ReplayDetected)));
}

#[test]
fn forged_datagram_leaves_the_session_as_it_was() {
    let (mut alice, mut bob, alice_id, bob_id) = establish(standard());
    let datagram = alice.send(alice_id, b"payload").unwrap().remove(0);
    let mut forged = datagram.clone();
    let last = forged.len() - 1;
    forged[last] ^= 1;
    assert!(matches!(bob.receive(&Admit, &forged, 0), Err(Error::AuthenticationFailed)));
    let mut other_generation = datagram.clone();
    other_generation[17] = 2;
    assert!(matches!(bob.receive(&Admit, &other_generation, 0), Err(Error::AuthenticationFailed)));
    let mut other_session = datagram.clone();
    other_session[8] = 50;
    assert!(matches!(bob.receive(&Admit, &other_session, 0), Err(Error::SessionExpired)));
    assert_eq!(bob.sessions[0].current.as_ref().unwrap().received, 0);
    assert_eq!(deliver(&mut bob, &[datagram]), vec![b"payload".to_vec()]);
    assert!(bob.established(bob_id));
}

#[test]
fn data_before_establishment_is_refused() {
    let mut alice = context(standard());
    let mut bob = context(standard());
    let (alice_id, init) = alice.open(&bob.local.public.clone(), b"shared beforehand", b"", 0).unwrap();
    assert!(matches!(alice.send(alice_id, b"early"), Err(Error::SessionExpired)));
    assert!(matches!(alice.send(77, b"nowhere"), Err(Error::SessionExpired)));
    let response = consumed(bob.receive(&Admit, &init, 0), 1, 1).remove(0);
    assert!(matches!(bob.send(1, b"early"), Err(Error::SessionExpired)));
    let _ = alice.receive(&Admit, &response, 0).unwrap();
    let data = alice.send(alice_id, b"hello").unwrap().remove(0);
    assert!(matches!(bob.receive(&Admit, &data, 0), Err(Error::SessionExpired)));
    assert_eq!(bob.sessions[0].state, SessionState::SentResponse);
}

#[test]
fn session_expires_at_the_usage_ceiling() {
    let settings = Settings::new(1500, 4, 4, 7200000, 0, 2000, 500).unwrap();
    let (mut alice, mut bob, alice_id, bob_id) = establish(settings);
    let mut sent = Vec::new();
    for _ in 0..4 {
        sent.extend(alice.send(alice_id, b"x").unwrap());
    }
    assert!(matches!(alice.send(alice_id, b"x"), Err(Error::SessionExpired)));
    assert_eq!(alice.sessions[0].state, SessionState::Expired);
    assert!(matches!(alice.send(alice_id, b"x"), Err(Error::SessionExpired)));
    assert!(!alice.established(alice_id));
    assert_eq!(deliver(&mut bob, &sent).len(), 4);
    let reply = bob.send(bob_id, b"y");
    assert!(matches!(reply, Err(Error::SessionExpired)));
    assert!(matches!(bob.receive(&Admit, &sent[0], 0), Err(Error::SessionExpired)));
    let report = alice.service(0);
    assert_eq!(report.closed.len(), 1);
    assert_eq!((report.closed[0].id, report.closed[0].reason), (alice_id, Error::SessionExpired));
    assert_eq!(alice.session_count(), 0);
    assert!(matches!(alice.send(alice_id, b"x"), Err(Error::SessionExpired)));
}

#[test]
fn message_that_would_cross_the_ceiling_is_not_sent_in_part() {
    let settings = Settings::new(1500, 5, 5, 7200000, 0, 2000, 500).unwrap();
    let (mut alice, _, alice_id, _) = establish(settings);
    assert_eq!(alice.send(alice_id, &vec![0u8; 1446 * 3]).unwrap().len(), 3);
    assert!(matches!(alice.send(alice_id, &vec![0u8; 1446 * 3]), Err(Error::SessionExpired)));
    assert_eq!(alice.sessions[0].current.as_ref().unwrap().send_counter, 3);
    assert!(matches!(alice.send(alice_id, b"small"), Err(Error::SessionExpired)));
}

#[test]
fn receiver_expires_the_session_at_the_ceiling() {
    let sender = Settings::new(1500, 100, 100, 7200000, 0, 2000, 500).unwrap();
    let receiver = Settings::new(1500, 2, 2, 7200000, 0, 2000, 500).unwrap();
    let mut alice = context(sender);
    let mut bob = context(receiver);
    let (alice_id, init) = alice.open(&bob.local.public.clone(), b"shared beforehand", b"", 0).unwrap();
    let response = consumed(bob.receive(&Admit, &init, 0), 1, 1).remove(0);
    let confirm = consumed(alice.receive(&Admit, &response, 0), alice_id, 1).remove(0);
    let _ = bob.receive(&Admit, &confirm, 0).unwrap();
    let mut sent = Vec::new();
    for _ in 0..3 {
        sent.extend(alice.send(alice_id, b"x").unwrap());
    }
    assert_eq!(deliver(&mut bob, &sent[..2]).len(), 2);
    assert!(matches!(bob.receive(&Admit, &sent[2], 0), Err(Error::SessionExpired)));
    assert_eq!(bob.sessions[0].state, SessionState::Expired);
    assert!(matches!(bob.receive(&Admit, &sent[2], 0), Err(Error::SessionExpired)));
    assert!(matches!(bob.send(1, b"y"), Err(Error::SessionExpired)));
}

#[test]
fn ratchet_after_uses_steps_the_generation() {
    let settings = Settings::new(1500, 4, 1000, 7200000, 0, 2000, 500).unwrap();
    let (mut alice, mut bob, alice_id, bob_id) = establish(settings);
    let before = alice.key_info(alice_id).unwrap();
    assert_eq!(bob.sessions[0].duty(0, &settings), Duty::Wait(500));
    for _ in 0..2 {
        let out = alice.send(alice_id, b"ping").unwrap();
        assert_eq!(deliver(&mut bob, &out).len(), 1);
        let back = bob.send(bob_id, b"pong").unwrap();
        assert_eq!(deliver(&mut alice, &back).len(), 1);
    }
    assert_eq!(alice.sessions[0].duty(0, &settings), Duty::Wait(500));
    assert_eq!(bob.sessions[0].duty(0, &settings), Duty::Rekey);
    assert!(alice.service(0).datagrams.is_empty());
    let report = bob.service(0);
    assert_eq!(report.datagrams.len(), 1);
    assert!(report.closed.is_empty());
    assert_eq!(report.next_service_ms, 500);
    assert!(bob.sessions[0].ephemeral.is_some());
    assert!(matches!(
        parse(&report.datagrams[0]),
        Ok(Packet::Protected { header, .. }) if header.kind == ProtectedKind::RekeyInit && header.generation == 1
    ));
    let ack = consumed(alice.receive(&Admit, &report.datagrams[0], 10), alice_id, 1).remove(0);
    assert_eq!(alice.key_info(alice_id).unwrap().0, 2);
    assert_eq!(bob.key_info(bob_id).unwrap().0, 1);
    assert!(consumed(bob.receive(&Admit, &ack, 20), bob_id, 0).is_empty());
    let after = bob.key_info(bob_id).unwrap();
    assert_eq!(after.0, 2);
    assert_eq!(alice.key_info(alice_id).unwrap(), after);
    assert_ne!(after.1, before.1);
    assert!(bob.sessions[0].ephemeral.is_none());
    assert!(bob.sessions[0].current.as_ref().unwrap().initiated_locally);
    assert!(!alice.sessions[0].current.as_ref().unwrap().initiated_locally);
    assert_eq!(bob.sessions[0].current.as_ref().unwrap().created_at, 20);
    assert_eq!(bob.sessions[0].current.as_ref().unwrap().send_counter, 0);
    assert_eq!(bob.sessions[0].previous.as_ref().unwrap().generation, 1);
    let out = alice.send(alice_id, b"under the new key").unwrap();
    assert!(matches!(parse(&out[0]), Ok(Packet::Protected { header, .. }) if header.generation == 2 && header.counter == 1));
    assert_eq!(deliver(&mut bob, &out), vec![b"under the new key".to_vec()]);
    let back = bob.send(bob_id, b"and back").unwrap();
    assert_eq!(deliver(&mut alice, &back), vec![b"and back".to_vec()]);
}

#[test]
fn ratchet_after_time_is_asked_for_by_the_side_whose_turn_it_is() {
    let settings = Settings::new(1500, 1000, 2000, 60000, 0, 2000, 500).unwrap();
    let (mut alice, mut bob, alice_id, bob_id) = establish(settings);
    assert_eq!(bob.sessions[0].current.as_ref().unwrap().rekey_age, 60000);
    assert_eq!(bob.sessions[0].duty(59999, &settings), Duty::Wait(1));
    assert_eq!(bob.sessions[0].duty(59600, &settings), Duty::Wait(400));
    assert_eq!(bob.sessions[0].duty(100, &settings), Duty::Wait(500));
    assert_eq!(bob.sessions[0].duty(60000, &settings), Duty::Rekey);
    assert_eq!(alice.sessions[0].duty(60000, &settings), Duty::Wait(500));
    assert_eq!(bob.service(59600).next_service_ms, 400);
    let request = bob.service(60000).datagrams.remove(0);
    assert_eq!(bob.sessions[0].duty(60100, &settings), Duty::Wait(400));
    assert_eq!(bob.sessions[0].duty(60500, &settings), Duty::RetryRekey);
    let retry = bob.service(60500).datagrams.remove(0);
    assert_ne!(retry, request);
    let ack = consumed(alice.receive(&Admit, &retry, 60500), alice_id, 1).remove(0);
    let ack_again = consumed(alice.receive(&Admit, &request, 60600), alice_id, 1).remove(0);
    assert_eq!(ack_again, ack);
    assert!(matches!(alice.receive(&Admit, &request, 60600), Err(Error::ReplayDetected)));
    assert!(consumed(bob.receive(&Admit, &ack, 60700), bob_id, 0).is_empty());
    assert_eq!(bob.key_info(bob_id).unwrap().0, 2);
    assert_eq!(bob.key_info(bob_id), alice.key_info(alice_id));
    assert!(matches!(bob.receive(&Admit, &ack_again, 60800), Err(Error::MalformedPacket)));
    assert_eq!(alice.sessions[0].duty(60500 + 59999, &settings), Duty::Wait(1));
    assert_eq!(alice.sessions[0].duty(60500 + 60000, &settings), Duty::Rekey);
    assert_eq!(bob.sessions[0].duty(60700 + 60000, &settings), Duty::Wait(500));
}

#[test]
fn datagrams_under_the_previous_key_still_arrive() {
    let settings = Settings::new(1500, 2, 1000, 7200000, 0, 2000, 500).unwrap();
    let (mut alice, mut bob, alice_id, bob_id) = establish(settings);
    let in_flight = bob.send(bob_id, b"sent before the ratchet").unwrap();
    let late = alice.send(alice_id, b"also before").unwrap();
    let more = alice.send(alice_id, b"and this").unwrap();
    assert_eq!(deliver(&mut bob, &more).len(), 1);
    let request = bob.service(0).datagrams.remove(0);
    let ack = consumed(alice.receive(&Admit, &request, 0), alice_id, 1).remove(0);
    assert_eq!(deliver(&mut alice, &in_flight), vec![b"sent before the ratchet".to_vec()]);
    let early = alice.send(alice_id, b"under generation two").unwrap();
    assert!(matches!(bob.receive(&Admit, &early[0], 0), Err(Error::AuthenticationFailed)));
    assert!(consumed(bob.receive(&Admit, &ack, 0), bob_id, 0).is_empty());
    assert_eq!(deliver(&mut bob, &late), vec![b"also before".to_vec()]);
    assert_eq!(deliver(&mut bob, &early), vec![b"under generation two".to_vec()]);
}

#[test]
fn ratchet_requests_out_of_turn_are_refused() {
    let settings = Settings::new(1500, 1, 1000, 7200000, 0, 2000, 500).unwrap();
    let (mut alice, mut bob, alice_id, bob_id) = establish(settings);
    let fresh = KeyPair::generate().unwrap();
    let request = alice.sessions[0].request_rekey(Some(fresh), 0, 1000).unwrap();
    assert!(matches!(bob.receive(&Admit, &request, 0), Err(Error::MalformedPacket)));
    assert_eq!(bob.key_info(bob_id).unwrap().0, 1);
    let out = alice.send(alice_id, b"x").unwrap();
    let _ = deliver(&mut bob, &out);
    let proper = bob.service(0).datagrams.remove(0);
    let ack = consumed(alice.receive(&Admit, &proper, 0), alice_id, 1).remove(0);
    let mut forged = ack.clone();
    let last = forged.len() - 1;
    forged[last] ^= 1;
    assert!(matches!(bob.receive(&Admit, &forged, 0), Err(Error::AuthenticationFailed)));
    assert_eq!(bob.key_info(bob_id).unwrap().0, 1);
    assert!(matches!(alice.receive(&Admit, &ack, 0), Err(Error::AuthenticationFailed)));
    assert!(consumed(bob.receive(&Admit, &ack, 0), bob_id, 0).is_empty());
    assert!(matches!(bob.receive(&Admit, &ack, 0), Err(Error::MalformedPacket)));
}

#[test]
fn unanswered_initiation_is_sent_again_and_then_given_up() {
    let mut alice = context(standard());
    let bob = context(standard());
    let (alice_id, init) = alice.open(&bob.local.public, b"", b"", 1000).unwrap();
    let report = alice.service(1000);
    assert!(report.datagrams.is_empty() && report.closed.is_empty());
    assert_eq!(report.next_service_ms, 500);
    assert_eq!(alice.service(1200).next_service_ms, 300);
    let report = alice.service(1500);
    assert_eq!(report.datagrams, vec![init.clone()]);
    assert_eq!(report.next_service_ms, 500);
    assert_eq!(alice.sessions[0].last_sent_at, 1500);
    assert_eq!(alice.service(1900).next_service_ms, 100);
    assert_eq!(alice.service(2000).datagrams, vec![init.clone()]);
    assert_eq!(alice.service(2500).datagrams, vec![init]);
    assert_eq!(alice.service(2900).next_service_ms, 100);
    let report = alice.service(3000);
    assert!(report.datagrams.is_empty());
    assert_eq!(report.closed.len(), 1);
    assert_eq!((report.closed[0].id, report.closed[0].reason), (alice_id, Error::NegotiationTimedOut));
    assert_eq!(alice.session_count(), 0);
    assert_eq!(alice.service(3000).next_service_ms, 500);
}

#[test]
fn unconfirmed_response_is_sent_again_and_then_given_up() {
    let mut alice = context(standard());
    let mut bob = context(standard());
    let (alice_id, init) = alice.open(&bob.local.public.clone(), b"shared beforehand", b"", 0).unwrap();
    let response = consumed(bob.receive(&Admit, &init, 100), 1, 1).remove(0);
    let _lost = consumed(alice.receive(&Admit, &response, 150), alice_id, 1);
    let report = bob.service(600);
    assert_eq!(report.datagrams, vec![response.clone()]);
    let confirm = consumed(alice.receive(&Admit, &report.datagrams[0], 650), alice_id, 1).remove(0);
    assert!(matches!(
        bob.receive(&Admit, &confirm, 700).unwrap().result,
        ReceiveResult::OkNewSession(1, _)
    ));
    let mut carol = context(standard());
    let (_, init) = alice.open(&carol.local.public.clone(), b"shared beforehand", b"", 0).unwrap();
    let _ = carol.receive(&Admit, &init, 100).unwrap();
    let report = carol.service(2100);
    assert_eq!(report.closed.len(), 1);
    assert_eq!(report.closed[0].reason, Error::NegotiationTimedOut);
    assert_eq!(carol.session_count(), 0);
}

#[test]
fn sweep_keeps_the_order_of_the_sessions_it_keeps() {
    let mut alice = context(standard());
    let bob = context(standard());
    let (first, _) = alice.open(&bob.local.public, b"", b"", 0).unwrap();
    let (second, _) = alice.open(&bob.local.public, b"", b"", 1000).unwrap();
    let (third, _) = alice.open(&bob.local.public, b"", b"", 100).unwrap();
    let (fourth, _) = alice.open(&bob.local.public, b"", b"", 1900).unwrap();
    let report = alice.service(2100);
    let closed: Vec<u64> = report.closed.iter().map(|c| c.id).collect();
    assert_eq!(closed, vec![first, third]);
    let kept: Vec<u64> = alice.sessions.iter().map(|s| s.id).collect();
    assert_eq!(kept, vec![second, fourth]);
    assert_eq!(report.datagrams.len(), 1);
    assert_eq!(report.datagrams[0], alice.sessions[0].last_message);
    assert_eq!(report.next_service_ms, 300);
}

#[test]
fn incomplete_messages_are_dropped_after_a_while() {
    let (mut alice, mut bob, alice_id, _) = establish(standard());
    let datagrams = alice.send(alice_id, &vec![3u8; 3000]).unwrap();
    assert_eq!(datagrams.len(), 3);
    let _ = bob.receive(&Admit, &datagrams[0], 1000).unwrap();
    assert_eq!(bob.sessions[0].reassembler.len(), 1);
    let _ = bob.service(10999);
    assert_eq!(bob.sessions[0].reassembler.len(), 1);
    let _ = bob.service(11000);
    assert_eq!(bob.sessions[0].reassembler.len(), 0);
    assert!(deliver(&mut bob, &datagrams[1..]).is_empty());
    assert_eq!(bob.sessions[0].reassembler.len(), 1);
}

#[test]
fn run_of_forgeries_tears_the_session_down() {
    let (mut alice, mut bob, alice_id, bob_id) = establish(standard());
    let good = alice.send(alice_id, b"good").unwrap().remove(0);
    let mut forged = good.clone();
    let last = forged.len() - 1;
    forged[last] ^= 1;
    for _ in 0..15 {
        assert!(matches!(bob.receive(&Admit, &forged, 0), Err(Error::AuthenticationFailed)));
    }
    assert_eq!(bob.sessions[0].failures, 15);
    assert!(bob.established(bob_id));
    assert_eq!(deliver(&mut bob, &[good]), vec![b"good".to_vec()]);
    assert_eq!(bob.sessions[0].failures, 0);
    let next = alice.send(alice_id, b"next").unwrap().remove(0);
    let mut forged = next.clone();
    forged[40] ^= 1;
    for _ in 0..16 {
        assert!(matches!(bob.receive(&Admit, &forged, 0), Err(Error::AuthenticationFailed)));
    }
    assert_eq!(bob.sessions[0].state, SessionState::Expired);
    assert!(matches!(bob.receive(&Admit, &next, 0), Err(Error::SessionExpired)));
    assert!(matches!(bob.send(bob_id, b"x"), Err(Error::SessionExpired)));
    assert!(alice.established(alice_id));
    let report = bob.service(0);
    assert_eq!(report.closed.len(), 1);
    assert_eq!(report.closed[0].reason, Error::SessionExpired);
}

#[test]
fn datagrams_of_an_unknown_generation_are_not_counted() {
    let (mut alice, mut bob, alice_id, bob_id) = establish(standard());
    let mut stray = alice.send(alice_id, b"stray").unwrap().remove(0);
    stray[17] = 9;
    for _ in 0..40 {
        assert!(matches!(bob.receive(&Admit, &stray, 0), Err(Error::AuthenticationFailed)));
    }
    assert_eq!(bob.sessions[0].failures, 0);
    assert!(bob.established(bob_id));
}

#[test]
fn erased_session_holds_no_key_material() {
    let settings = Settings::new(1500, 1, 1000, 7200000, 0, 2000, 500).unwrap();
    let (mut alice, mut bob, alice_id, bob_id) = establish(settings);
    let out = alice.send(alice_id, b"x").unwrap();
    let _ = deliver(&mut bob, &out);
    let request = bob.service(0).datagrams.remove(0);
    let _ = alice.receive(&Admit, &request, 0).unwrap();
    let mut session = alice.sessions.remove(0);
    assert!(session.previous.is_some());
    assert!(session.psk.iter().any(|b| *b != 0));
    session.erase();
    assert_eq!(session.state, SessionState::Expired);
    assert_eq!(session.id, alice_id);
    assert!(session.ephemeral.is_none());
    assert!(session.psk.iter().all(|b| *b == 0));
    assert_eq!(session.psk.len(), b"shared beforehand".len());
    for key in [session.current.as_ref().unwrap(), session.previous.as_ref().unwrap()] {
        assert_eq!(key.ratchet_key, vec![0u8; 48]);
        assert_eq!(key.send_key, vec![0u8; 32]);
        assert_eq!(key.receive_key, vec![0u8; 32]);
    }
    let mut pending = bob.sessions.remove(0);
    assert!(pending.ephemeral.is_some());
    pending.erase();
    assert!(pending.ephemeral.is_none());
    assert_eq!(pending.id, bob_id);
}

#[test]
fn session_at_the_ceiling_receives_nothing_of_any_generation() {
    let sender = Settings::new(1500, 100, 100, 7200000, 0, 2000, 500).unwrap();
    let receiver = Settings::new(1500, 2, 2, 7200000, 0, 2000, 500).unwrap();
    for generation in [1u8, 0, 2, 9] {
        let mut alice = context(sender);
        let mut bob = context(receiver);
        let (alice_id, init) =
            alice.open(&bob.local.public.clone(), b"shared beforehand", b"", 0).unwrap();
        let response = consumed(bob.receive(&Admit, &init, 0), 1, 1).remove(0);
        let confirm = consumed(alice.receive(&Admit, &response, 0), alice_id, 1).remove(0);
        let _ = bob.receive(&Admit, &confirm, 0).unwrap();
        let mut sent = Vec::new();
        for _ in 0..3 {
            sent.extend(alice.send(alice_id, b"x").unwrap());
        }
        assert_eq!(deliver(&mut bob, &sent[..2]).len(), 2);
        assert_eq!(bob.sessions[0].state, SessionState::Established);
        let mut next = sent[2].clone();
        next[17] = generation;
        assert!(matches!(bob.receive(&Admit, &next, 0), Err(Error::SessionExpired)));
        assert_eq!(bob.sessions[0].state, SessionState::Expired);
        assert!(matches!(bob.receive(&Admit, &sent[2], 0), Err(Error::SessionExpired)));
    }
}

#[test]
fn ratchet_messages_find_a_session_at_the_ceiling_expired() {
    let settings = Settings::new(1500, 2, 5, 7200000, 0, 2000, 500).unwrap();
    let (mut alice, mut bob, alice_id, bob_id) = establish(settings);
    let mut sent = Vec::new();
    for _ in 0..3 {
        sent.extend(alice.send(alice_id, b"x").unwrap());
    }
    assert_eq!(deliver(&mut bob, &sent[..2]).len(), 2);
    let request = bob.service(0).datagrams.remove(0);
    assert_eq!(deliver(&mut bob, &sent[2..]).len(), 1);
    assert_eq!(bob.send(bob_id, b"y").unwrap().len(), 1);
    assert_eq!(bob.sessions[0].current.as_ref().unwrap().uses(), 5);
    assert!(bob.established(bob_id));
    let ack = consumed(alice.receive(&Admit, &request, 0), alice_id, 1).remove(0);
    assert_eq!(alice.key_info(alice_id).unwrap().0, 2);
    assert!(matches!(bob.receive(&Admit, &ack, 0), Err(Error::SessionExpired)));
    assert_eq!(bob.sessions[0].state, SessionState::Expired);
    assert_eq!(bob.key_info(bob_id).unwrap().0, 1);
    assert!(matches!(bob.receive(&Admit, &ack, 0), Err(Error::SessionExpired)));
    let fresh = KeyPair::generate().unwrap();
    let out_of_turn = alice.sessions[0].request_rekey(Some(fresh), 0, 5).unwrap();
    assert!(matches!(bob.receive(&Admit, &out_of_turn, 0), Err(Error::SessionExpired)));
}

#[test]
fn repeated_handshake_messages_find_a_session_at_the_ceiling_expired() {
    let settings = Settings::new(1500, 1, 1, 7200000, 0, 2000, 500).unwrap();
    let mut alice = context(settings);
    let mut bob = context(settings);
    let (alice_id, init) = alice.open(&bob.local.public.clone(), b"shared beforehand", b"", 0).unwrap();
    let response = consumed(bob.receive(&Admit, &init, 0), 1, 1).remove(0);
    let confirm = consumed(alice.receive(&Admit, &response, 0), alice_id, 1).remove(0);
    let _ = bob.receive(&Admit, &confirm, 0).unwrap();
    let out = alice.send(alice_id, b"x").unwrap();
    assert_eq!(deliver(&mut bob, &out).len(), 1);
    assert!(matches!(alice.receive(&Admit, &response, 0), Err(Error::SessionExpired)));
    assert_eq!(alice.sessions[0].state, SessionState::Expired);
    assert!(matches!(bob.receive(&Admit, &confirm, 0), Err(Error::SessionExpired)));
    assert_eq!(bob.sessions[0].state, SessionState::Expired);
}

#[test]
fn previous_key_at_the_ceiling_is_forgotten() {
    let settings = Settings::new(1500, 2, 6, 7200000, 0, 2000, 500).unwrap();
    let (mut alice, mut bob, alice_id, bob_id) = establish(settings);
    let mut late = Vec::new();
    for _ in 0..4 {
        late.extend(alice.send(alice_id, b"late").unwrap());
    }
    assert_eq!(deliver(&mut bob, &late[..2]).len(), 2);
    let request = bob.service(0).datagrams.remove(0);
    let ack = consumed(alice.receive(&Admit, &request, 0), alice_id, 1).remove(0);
    let _ = consumed(bob.receive(&Admit, &ack, 0), bob_id, 0);
    assert_eq!(bob.sessions[0].previous.as_ref().unwrap().uses(), 4);
    assert_eq!(deliver(&mut bob, &late[2..]).len(), 2);
    assert_eq!(bob.sessions[0].previous.as_ref().unwrap().uses(), 6);
    assert!(matches!(bob.receive(&Admit, &late[0], 0), Err(Error::AuthenticationFailed)));
    assert!(bob.sessions[0].previous.is_none());
    assert_eq!(bob.sessions[0].failures, 0);
    assert!(bob.established(bob_id));
    assert!(matches!(bob.receive(&Admit, &late[0], 0), Err(Error::AuthenticationFailed)));
    let out = alice.send(alice_id, b"new").unwrap();
    assert_eq!(deliver(&mut bob, &out), vec![b"new".to_vec()]);
}

#[test]
fn datagrams_fit_the_datagram_size() {
    for mtu in [128usize, 576, 1500, 9000] {
        let settings = Settings::new(mtu, 300000, 2147483648, 7200000, 0, 2000, 500).unwrap();
        let (mut alice, mut bob, alice_id, _) = establish(settings);
        for len in [0usize, 1, mtu - 54, mtu - 53, 5 * mtu] {
            let message = vec![7u8; len];
            let datagrams = alice.send(alice_id, &message).unwrap();
            let pieces = zssp::fragment::split(&message, mtu - 54);
            assert_eq!(datagrams.len(), pieces.len());
            for (datagram, piece) in datagrams.iter().zip(pieces.iter()) {
                assert_eq!(datagram.len(), 54 + piece.len());
                assert!(datagram.len() <= mtu);
            }
            assert_eq!(deliver(&mut bob, &datagrams), vec![message]);
        }
    }
}

#[test]
fn sweep_hands_out_what_each_session_is_owed_in_table_order() {
    let settings = Settings::new(1500, 1, 1000, 7200000, 0, 2000, 500).unwrap();
    let mut bob = context(settings);
    let mut alice = context(settings);
    let carol = context(settings);
    let (first, first_init) = bob.open(&carol.local.public, b"", b"", 0).unwrap();
    let (alice_id, init) = alice.open(&bob.local.public.clone(), b"shared beforehand", b"", 0).unwrap();
    let bob_id = bob.next_id;
    let response = consumed(bob.receive(&Admit, &init, 0), bob_id, 1).remove(0);
    let confirm = consumed(alice.receive(&Admit, &response, 0), alice_id, 1).remove(0);
    let _ = bob.receive(&Admit, &confirm, 0).unwrap();
    let (third, third_init) = bob.open(&carol.local.public, b"", b"", 100).unwrap();
    let (fourth, fourth_init) = bob.open(&carol.local.public, b"", b"", 400).unwrap();
    let out = alice.send(alice_id, b"x").unwrap();
    let _ = deliver(&mut bob, &out);
    let report = bob.service(700);
    assert!(report.closed.is_empty());
    assert_eq!(report.datagrams.len(), 3);
    assert_eq!(report.datagrams[0], first_init);
    assert!(matches!(
        parse(&report.datagrams[1]),
        Ok(Packet::Protected { header, .. })
            if header.kind == ProtectedKind::RekeyInit && header.recipient_id == alice_id && header.counter == 1
    ));
    assert_eq!(report.datagrams[2], third_init);
    assert_eq!(report.next_service_ms, 200);
    let ids: Vec<u64> = bob.sessions.iter().map(|s| s.id).collect();
    assert_eq!(ids, vec![first, bob_id, third, fourth]);
    let pending = bob.sessions[1].ephemeral.as_ref().unwrap().public.clone();
    let ack = consumed(alice.receive(&Admit, &report.datagrams[1], 700), alice_id, 1).remove(0);
    assert_eq!(alice.sessions[0].rekey_peer, pending);
    let _ = consumed(bob.receive(&Admit, &ack, 700), bob_id, 0);
    assert_eq!(bob.key_info(bob_id).unwrap().0, 2);
    let report = bob.service(2050);
    let closed: Vec<(u64, Error)> = report.closed.iter().map(|c| (c.id, c.reason)).collect();
    assert_eq!(closed, vec![(first, Error::NegotiationTimedOut)]);
    assert_eq!(report.datagrams, vec![third_init, fourth_init]);
    assert_eq!(report.next_service_ms, 500);
    let ids: Vec<u64> = bob.sessions.iter().map(|s| s.id).collect();
    assert_eq!(ids, vec![bob_id, third, fourth]);
}

#[test]
fn resolver_decides_between_rejection_and_answer() {
    let mut alice = context(standard());
    let mut bob = context(standard());
    let (alice_id, init) = alice.open(&bob.local.public.clone(), b"shared beforehand", b"", 0).unwrap();
    let ephemeral = match parse(&init) {
        Ok(Packet::Init { ephemeral, .. }) => ephemeral,
        other => panic!("unexpected {:?}", other),
    };
    let turned_away = bob
        .handle_resolved(None, alice_id, &ephemeral, &init, KeyPair::generate().unwrap(), 1000, 0)
        .unwrap();
    assert!(matches!(turned_away.result, ReceiveResult::Rejected));
    assert!(turned_away.replies.is_empty());
    assert_eq!((bob.session_count(), bob.next_id), (0, 1));
    let identity = RemoteIdentity {
        public_key: alice.local.public.clone(),
        psk: b"shared beforehand".to_vec(),
        application_data: b"alice".to_vec(),
    };
    let fresh = KeyPair::generate().unwrap();
    let fresh_public = fresh.public.clone();
    let response =
        consumed(bob.handle_resolved(Some(identity), alice_id, &ephemeral, &init, fresh, 1000, 0), 1, 1)
            .remove(0);
    assert_eq!(&response[18..67], &fresh_public[..]);
    assert_eq!(bob.sessions[0].current.as_ref().unwrap().rekey_age, 1000);
    let confirm = consumed(alice.receive(&Admit, &response, 0), alice_id, 1).remove(0);
    assert!(matches!(
        bob.receive(&Admit, &confirm, 0).unwrap().result,
        ReceiveResult::OkNewSession(1, _)
    ));
    assert!(matches!(bob.receive(&Refuse, &init, 0).unwrap().result, ReceiveResult::Rejected));
    assert_eq!(bob.session_count(), 1);
}
