use zssp::clock::{due, elapsed, remaining, sooner};
use zssp::error::Error;
use zssp::fragment::{assemble, fragment_count, slots_complete, split, Reassembler, MAX_FRAGMENTS, MAX_PENDING};
use zssp::replay::{ReplayWindow, WINDOW_SIZE};
use zssp::settings::{Settings, MAX_MTU, MAX_USES, MIN_MTU};
use zssp::wire::{
    encode, parse, put_bytes, put_header, put_u16, put_u64, read_u16, read_u64, take_bytes, Packet,
    ProtectedHeader, ProtectedKind, CONFIRM_SIZE, HEADER_SIZE, INIT_SIZE, PROTECTED_HEADER_SIZE,
    PROTECTED_OVERHEAD, RESPONSE_SIZE,
};

fn sample_init() -> Packet {
    Packet::Init { sender_id: 7, ephemeral: vec![0xaa; 49], static_public: vec![0xbb; 49] }
}

fn sample_header() -> ProtectedHeader {
    ProtectedHeader {
        recipient_id: 0x0102030405060708,
        kind: ProtectedKind::Data,
        generation: 3,
        counter: 0x1122,
        message_id: 9,
        index: 2,
        count: 5,
    }
}

#[test]
fn error_text_is_exact() {
    assert_eq!(Error::UnknownProtocolVersion.to_string(), "unknown protocol version");
    assert_eq!(Error::InvalidKeyEncoding.to_string(), "invalid key encoding");
    assert_eq!(Error::AuthenticationFailed.to_string(), "authentication failed");
    assert_eq!(Error::ReplayDetected.to_string(), "replay detected");
    assert_eq!(Error::NegotiationTimedOut.to_string(), "negotiation timed out");
    assert_eq!(Error::SessionExpired.to_string(), "session expired");
    assert_eq!(Error::MalformedPacket.to_string(), "malformed packet");
    assert_eq!(Error::ResourceExhausted.to_string(), "resource exhausted");
}

#[test]
fn integers_are_big_endian() {
    let mut out = Vec::new();
    put_u64(&mut out, 0x0102030405060708);
    put_u16(&mut out, 0x0a0b);
    assert_eq!(out, vec![1, 2, 3, 4, 5, 6, 7, 8, 0x0a, 0x0b]);
    assert_eq!(read_u64(&out, 0), 0x0102030405060708);
    assert_eq!(read_u16(&out, 8), 0x0a0b);
    assert_eq!(read_u64(&[0xff; 8], 0), u64::MAX);
    assert_eq!(read_u16(&[0xff; 2], 0), u16::MAX);
}

#[test]
fn byte_helpers_copy_what_they_are_given() {
    let mut out = vec![1u8];
    put_bytes(&mut out, &[2, 3]);
    put_bytes(&mut out, &[]);
    assert_eq!(out, vec![1, 2, 3]);
    assert_eq!(take_bytes(&out, 1, 3), vec![2, 3]);
    assert_eq!(take_bytes(&out, 2, 2), Vec::<u8>::new());
}

#[test]
fn header_layout() {
    let mut out = Vec::new();
    put_header(&mut out, 0x0102030405060708, 4);
    assert_eq!(out, vec![1, 1, 2, 3, 4, 5, 6, 7, 8, 4]);
    assert_eq!(out.len(), HEADER_SIZE);
}

#[test]
fn protected_header_layout() {
    let bytes = sample_header().encode();
    assert_eq!(bytes.len(), PROTECTED_HEADER_SIZE);
    assert_eq!(
        bytes,
        vec![
            1, 1, 2, 3, 4, 5, 6, 7, 8, 4, 0, 0, 0, 0, 0, 0, 0, 3, 0, 0, 0, 0, 0, 0, 0x11, 0x22, 0, 0,
            0, 0, 0, 0, 0, 9, 0, 2, 0, 5
        ]
    );
}

#[test]
fn protected_kind_tags() {
    assert_eq!(ProtectedKind::Data.tag(), 4);
    assert_eq!(ProtectedKind::RekeyInit.tag(), 5);
    assert_eq!(ProtectedKind::RekeyAck.tag(), 6);
    assert_eq!(ProtectedKind::of_tag(4), Some(ProtectedKind::Data));
    assert_eq!(ProtectedKind::of_tag(5), Some(ProtectedKind::RekeyInit));
    assert_eq!(ProtectedKind::of_tag(6), Some(ProtectedKind::RekeyAck));
    assert_eq!(ProtectedKind::of_tag(3), None);
    assert_eq!(ProtectedKind::of_tag(7), None);
}

#[test]
fn init_round_trip() {
    let bytes = encode(&sample_init());
    assert_eq!(bytes.len(), INIT_SIZE);
    assert_eq!(&bytes[..10], &[1, 0, 0, 0, 0, 0, 0, 0, 0, 1]);
    match parse(&bytes) {
        Ok(Packet::Init { sender_id, ephemeral, static_public }) => {
            assert_eq!(sender_id, 7);
            assert_eq!(ephemeral, vec![0xaa; 49]);
            assert_eq!(static_public, vec![0xbb; 49]);
        }
        other => panic!("unexpected {:?}", other),
    }
}

#[test]
fn response_round_trip() {
    let packet =
        Packet::Response { recipient_id: 7, sender_id: 9, ephemeral: vec![3; 49], tag: vec![4; 48] };
    let bytes = encode(&packet);
    assert_eq!(bytes.len(), RESPONSE_SIZE);
    match parse(&bytes) {
        Ok(Packet::Response { recipient_id, sender_id, ephemeral, tag }) => {
            assert_eq!((recipient_id, sender_id), (7, 9));
            assert_eq!(ephemeral, vec![3; 49]);
            assert_eq!(tag, vec![4; 48]);
        }
        other => panic!("unexpected {:?}", other),
    }
}

#[test]
fn confirm_round_trip() {
    let bytes = encode(&Packet::Confirm { recipient_id: 9, tag: vec![5; 48] });
    assert_eq!(bytes.len(), CONFIRM_SIZE);
    match parse(&bytes) {
        Ok(Packet::Confirm { recipient_id, tag }) => {
            assert_eq!(recipient_id, 9);
            assert_eq!(tag, vec![5; 48]);
        }
        other => panic!("unexpected {:?}", other),
    }
}

#[test]
fn protected_round_trip() {
    let packet = Packet::Protected { header: sample_header(), sealed: vec![6; 20] };
    let bytes = encode(&packet);
    assert_eq!(bytes.len(), PROTECTED_HEADER_SIZE + 20);
    match parse(&bytes) {
        Ok(Packet::Protected { header, sealed }) => {
            assert_eq!(header, sample_header());
            assert_eq!(sealed, vec![6; 20]);
        }
        other => panic!("unexpected {:?}", other),
    }
}

#[test]
fn parse_rejects_unknown_version_first() {
    let mut bytes = encode(&sample_init());
    bytes[0] = 2;
    assert!(matches!(parse(&bytes), Err(Error::UnknownProtocolVersion)));
    assert!(matches!(parse(&[9]), Err(Error::UnknownProtocolVersion)));
    assert!(matches!(parse(&[0, 1, 2]), Err(Error::UnknownProtocolVersion)));
}

#[test]
fn parse_rejects_malformed_layouts() {
    assert!(matches!(parse(&[]), Err(Error::MalformedPacket)));
    assert!(matches!(parse(&[1, 0, 0]), Err(Error::MalformedPacket)));
    let init = encode(&sample_init());
    assert!(matches!(parse(&init[..INIT_SIZE - 1]), Err(Error::MalformedPacket)));
    let mut long = init.clone();
    long.push(0);
    assert!(matches!(parse(&long), Err(Error::MalformedPacket)));
    let mut addressed = init.clone();
    addressed[8] = 1;
    assert!(matches!(parse(&addressed), Err(Error::MalformedPacket)));
    let mut anonymous = init.clone();
    anonymous[17] = 0;
    assert!(matches!(parse(&anonymous), Err(Error::MalformedPacket)));
    let mut unknown = init.clone();
    unknown[9] = 0;
    assert!(matches!(parse(&unknown), Err(Error::MalformedPacket)));
    unknown[9] = 7;
    assert!(matches!(parse(&unknown), Err(Error::MalformedPacket)));
}

#[test]
fn parse_rejects_malformed_protected() {
    let good = encode(&Packet::Protected { header: sample_header(), sealed: vec![0; 16] });
    assert_eq!(good.len(), PROTECTED_OVERHEAD);
    assert!(parse(&good).is_ok());
    assert!(matches!(parse(&good[..PROTECTED_OVERHEAD - 1]), Err(Error::MalformedPacket)));
    let mut header = sample_header();
    header.index = 5;
    let bad = encode(&Packet::Protected { header, sealed: vec![0; 16] });
    assert!(matches!(parse(&bad), Err(Error::MalformedPacket)));
    header.index = 0;
    header.count = 0;
    let bad = encode(&Packet::Protected { header, sealed: vec![0; 16] });
    assert!(matches!(parse(&bad), Err(Error::MalformedPacket)));
    let mut header = sample_header();
    header.recipient_id = 0;
    let bad = encode(&Packet::Protected { header, sealed: vec![0; 16] });
    assert!(matches!(parse(&bad), Err(Error::MalformedPacket)));
}

#[test]
fn parse_rejects_malformed_handshake_replies() {
    let response =
        encode(&Packet::Response { recipient_id: 7, sender_id: 9, ephemeral: vec![3; 49], tag: vec![4; 48] });
    assert!(matches!(parse(&response[..RESPONSE_SIZE - 1]), Err(Error::MalformedPacket)));
    let mut unaddressed = response.clone();
    unaddressed[8] = 0;
    assert!(matches!(parse(&unaddressed), Err(Error::MalformedPacket)));
    let mut anonymous = response.clone();
    anonymous[17] = 0;
    assert!(matches!(parse(&anonymous), Err(Error::MalformedPacket)));
    let confirm = encode(&Packet::Confirm { recipient_id: 9, tag: vec![5; 48] });
    assert!(matches!(parse(&confirm[..CONFIRM_SIZE - 1]), Err(Error::MalformedPacket)));
    let mut unaddressed = confirm.clone();
    unaddressed[8] = 0;
    assert!(matches!(parse(&unaddressed), Err(Error::MalformedPacket)));
}

#[test]
fn window_starts_refusing_only_zero() {
    let window = ReplayWindow::new();
    assert_eq!(window.highest, 0);
    assert_eq!(window.slots.len() as u64, WINDOW_SIZE);
    assert!(window.is_replay(0));
    assert!(!window.is_replay(1));
    assert!(!window.is_replay(1000));
    assert!(!window.is_replay(u64::MAX));
}

#[test]
fn window_never_accepts_a_counter_twice() {
    let mut window = ReplayWindow::new();
    let arrivals: [u64; 12] = [1, 2, 5, 3, 4, 9, 7, 70, 69, 8, 200, 137];
    let mut accepted: Vec<u64> = Vec::new();
    for round in 0..3 {
        for c in arrivals.iter() {
            if !window.is_replay(*c) {
                assert!(!accepted.contains(c), "round {} accepted {} again", round, c);
                window.accept(*c);
                accepted.push(*c);
            }
        }
    }
    assert_eq!(accepted, vec![1, 2, 5, 3, 4, 9, 7, 70, 69, 8, 200, 137]);
    assert_eq!(window.highest, 200);
}

#[test]
fn window_tolerates_reordering_within_its_size() {
    let mut window = ReplayWindow::new();
    window.accept(100);
    assert!(window.is_replay(100));
    assert!(!window.is_replay(99));
    assert!(!window.is_replay(37));
    assert!(window.is_replay(36));
    assert!(window.is_replay(1));
    window.accept(37);
    assert!(window.is_replay(37));
    window.accept(101);
    assert!(window.is_replay(37));
    assert!(!window.is_replay(38));
    window.accept(165);
    assert!(window.is_replay(101));
    assert!(!window.is_replay(102));
    assert!(!window.is_replay(164));
}

#[test]
fn window_forgets_nothing_when_it_jumps() {
    let mut window = ReplayWindow::new();
    window.accept(5);
    window.accept(5 + 64 * 3);
    assert!(window.is_replay(5));
    assert!(window.is_replay(5 + 64 * 3));
    assert!(window.is_replay(5 + 64 * 2));
    assert!(!window.is_replay(6 + 64 * 2));
    assert!(!window.is_replay(4 + 64 * 3));
    let copy = window.duplicate();
    assert_eq!(copy.highest, window.highest);
    assert_eq!(copy.slots, window.slots);
}

#[test]
fn fragment_counts() {
    assert_eq!(fragment_count(0, 1446), 1);
    assert_eq!(fragment_count(1, 1446), 1);
    assert_eq!(fragment_count(1446, 1446), 1);
    assert_eq!(fragment_count(1447, 1446), 2);
    assert_eq!(fragment_count(14000, 1446), 10);
    assert_eq!(fragment_count(14460, 1446), 10);
    assert_eq!(fragment_count(14461, 1446), 11);
    assert_eq!(fragment_count(usize::MAX, 1), usize::MAX);
}

#[test]
fn split_cuts_in_order() {
    let message: Vec<u8> = (0..10u8).collect();
    assert_eq!(split(&message, 4), vec![vec![0, 1, 2, 3], vec![4, 5, 6, 7], vec![8, 9]]);
    assert_eq!(split(&message, 5), vec![vec![0, 1, 2, 3, 4], vec![5, 6, 7, 8, 9]]);
    assert_eq!(split(&message, 10), vec![message.clone()]);
    assert_eq!(split(&message, 11), vec![message.clone()]);
    assert_eq!(split(&[], 4), vec![Vec::<u8>::new()]);
}

#[test]
fn split_then_join_is_the_message() {
    for len in [0usize, 1, 99, 100, 101, 1000, 14000] {
        let message: Vec<u8> = (0..len).map(|i| (i * 7 % 251) as u8).collect();
        for usable in [1usize, 3, 100, 1446] {
            let pieces = split(&message, usable);
            assert_eq!(pieces.len(), fragment_count(len, usable));
            assert!(pieces.iter().all(|p| p.len() <= usable));
            let slots: Vec<Option<Vec<u8>>> = pieces.into_iter().map(Some).collect();
            assert!(slots_complete(&slots));
            assert_eq!(assemble(&slots), message);
        }
    }
}

#[test]
fn slots_with_a_gap_are_incomplete() {
    let slots = vec![Some(vec![1u8]), None, Some(vec![3u8])];
    assert!(!slots_complete(&slots));
    assert_eq!(assemble(&slots), vec![1, 3]);
    assert!(slots_complete(&Vec::new()));
}

#[test]
fn reassembler_releases_single_fragment_at_once() {
    let mut reassembler = Reassembler::new();
    assert_eq!(reassembler.accept(1, 0, 1, vec![9, 9], 0), Ok(Some(vec![9, 9])));
    assert_eq!(reassembler.len(), 0);
}

#[test]
fn reassembler_waits_for_every_fragment() {
    let mut reassembler = Reassembler::new();
    assert_eq!(reassembler.accept(5, 2, 3, vec![5, 6], 10), Ok(None));
    assert_eq!(reassembler.len(), 1);
    assert_eq!(reassembler.find(5), 0);
    assert_eq!(reassembler.find(6), 1);
    assert_eq!(reassembler.accept(5, 0, 3, vec![1, 2], 11), Ok(None));
    assert_eq!(reassembler.accept(5, 0, 3, vec![7, 7], 12), Ok(None));
    assert_eq!(reassembler.accept(5, 1, 3, vec![3, 4], 13), Ok(Some(vec![1, 2, 3, 4, 5, 6])));
    assert_eq!(reassembler.len(), 0);
}

#[test]
fn reassembler_keeps_messages_apart() {
    let mut reassembler = Reassembler::new();
    assert_eq!(reassembler.accept(1, 0, 2, vec![1], 0), Ok(None));
    assert_eq!(reassembler.accept(2, 1, 2, vec![4], 0), Ok(None));
    assert_eq!(reassembler.accept(2, 0, 2, vec![3], 0), Ok(Some(vec![3, 4])));
    assert_eq!(reassembler.len(), 1);
    assert_eq!(reassembler.accept(1, 1, 2, vec![2], 0), Ok(Some(vec![1, 2])));
    assert_eq!(reassembler.len(), 0);
}

#[test]
fn reassembler_refuses_what_does_not_fit() {
    let mut reassembler = Reassembler::new();
    assert_eq!(
        reassembler.accept(1, 0, MAX_FRAGMENTS + 1, vec![1], 0),
        Err(Error::MalformedPacket)
    );
    assert_eq!(reassembler.accept(1, 0, MAX_FRAGMENTS, vec![1], 0), Ok(None));
    assert_eq!(reassembler.accept(1, 1, 3, vec![1], 0), Err(Error::MalformedPacket));
    for id in 2..(MAX_PENDING as u64 + 1) {
        assert_eq!(reassembler.accept(id, 0, 2, vec![1], 0), Ok(None));
    }
    assert_eq!(reassembler.len(), MAX_PENDING);
    assert_eq!(reassembler.accept(100, 0, 2, vec![1], 0), Err(Error::ResourceExhausted));
    assert_eq!(reassembler.accept(100, 0, 1, vec![1], 0), Ok(Some(vec![1])));
    assert_eq!(reassembler.accept(2, 1, 2, vec![2], 0), Ok(Some(vec![1, 2])));
    assert_eq!(reassembler.accept(100, 0, 2, vec![1], 0), Ok(None));
}

#[test]
fn reassembler_evicts_by_age() {
    let mut reassembler = Reassembler::new();
    assert_eq!(reassembler.accept(1, 0, 2, vec![1], 100), Ok(None));
    assert_eq!(reassembler.accept(2, 0, 2, vec![2], 200), Ok(None));
    assert_eq!(reassembler.accept(3, 0, 2, vec![3], 300), Ok(None));
    assert_eq!(reassembler.evict(299, 100), 1);
    assert_eq!(reassembler.len(), 2);
    assert_eq!(reassembler.find(1), 2);
    assert_eq!(reassembler.find(2), 0);
    assert_eq!(reassembler.evict(299, 100), 0);
    assert_eq!(reassembler.evict(400, 100), 2);
    assert_eq!(reassembler.len(), 0);
    assert_eq!(reassembler.accept(1, 1, 2, vec![1], 500), Ok(None));
}

#[test]
fn clock_never_overflows() {
    assert_eq!(elapsed(10, 3), 7);
    assert_eq!(elapsed(3, 10), 0);
    assert_eq!(elapsed(5, 5), 0);
    assert_eq!(elapsed(i64::MAX, i64::MIN), i64::MAX);
    assert_eq!(elapsed(i64::MAX, -1), i64::MAX);
    assert_eq!(elapsed(i64::MAX, 0), i64::MAX);
    assert_eq!(elapsed(0, i64::MIN), i64::MAX);
    assert_eq!(elapsed(-1, i64::MIN), i64::MAX);
    assert_eq!(remaining(10, 3, 20), 13);
    assert_eq!(remaining(23, 3, 20), 0);
    assert_eq!(remaining(1, 3, 20), 20);
    assert!(due(23, 3, 20));
    assert!(!due(22, 3, 20));
    assert_eq!(sooner(3, 4), 3);
    assert_eq!(sooner(4, 3), 3);
}

#[test]
fn settings_accept_only_usable_values() {
    let good = Settings::new(1500, 300000, 2147483648, 7200000, 600000, 2000, 500).unwrap();
    assert_eq!(good.mtu, 1500);
    assert_eq!(good.rekey_after_uses, 300000);
    assert_eq!(good.expire_after_uses, 2147483648);
    assert_eq!(good.rekey_after_time_ms, 7200000);
    assert_eq!(good.rekey_max_jitter_ms, 600000);
    assert_eq!(good.negotiation_timeout_ms, 2000);
    assert_eq!(good.retry_interval_ms, 500);
    assert_eq!(good.usable_payload(), 1446);
    assert!(Settings::new(MIN_MTU, 1, 1, 1, 0, 1, 1).is_some());
    assert!(Settings::new(MAX_MTU, 1, MAX_USES, 1, u32::MAX, 1, 1).is_some());
    assert!(Settings::new(MIN_MTU - 1, 1, 1, 1, 0, 1, 1).is_none());
    assert!(Settings::new(MAX_MTU + 1, 1, 1, 1, 0, 1, 1).is_none());
    assert!(Settings::new(1500, 0, 1, 1, 0, 1, 1).is_none());
    assert!(Settings::new(1500, 2, 1, 1, 0, 1, 1).is_none());
    assert!(Settings::new(1500, 1, MAX_USES + 1, 1, 0, 1, 1).is_none());
    assert!(Settings::new(1500, 1, 1, 0, 0, 1, 1).is_none());
    assert!(Settings::new(1500, 1, 1, 1, 0, 0, 1).is_none());
    assert!(Settings::new(1500, 1, 1, 1, 0, 1, 0).is_none());
    assert!(Settings::new(1500, 1, 1, i64::MAX, 0, 1, 1).is_none());
    assert!(Settings::new(1500, 1, 1, 1, 0, -5, 1).is_none());
}

#[test]
fn rekey_age_adds_bounded_jitter() {
    let settings = Settings::new(1500, 10, 20, 1000, 9, 2000, 500).unwrap();
    assert_eq!(settings.rekey_age(0), 1000);
    assert_eq!(settings.rekey_age(25), 1005);
    assert_eq!(settings.rekey_age(9), 1009);
    assert_eq!(settings.rekey_age(10), 1000);
    assert_eq!(settings.rekey_age(u64::MAX), 1000 + (u64::MAX % 10) as i64);
    let steady = Settings::new(1500, 10, 20, 1000, 0, 2000, 500).unwrap();
    assert_eq!(steady.rekey_age(12345), 1000);
}
