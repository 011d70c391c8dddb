use base64::Engine;
use rmsg::crypto::KeyPair;
use rmsg::protocol::{ChatMessage, ControlMessage, HistoryItem, WireMessage};
use rmsg::session::{chrono_now, ChatSession};
use rmsg::storage::StoredMessage;

fn pair(room: &str) -> (ChatSession, ChatSession) {
    let alice = ChatSession::new(room.to_string(), "alice".to_string(), KeyPair::generate());
    let bob = ChatSession::new(room.to_string(), "bob".to_string(), KeyPair::generate());
    (alice, bob)
}

fn handshake(a: &mut ChatSession, b: &mut ChatSession) {
    let ha = a.mk_handshake();
    let hb = b.mk_handshake();
    let ea = a.process_wire(hb);
    let eb = b.process_wire(ha);
    assert_eq!(ea.events.len(), 1);
    assert_eq!(eb.events.len(), 1);
}

#[test]
fn new_session_is_not_ready() {
    let s = ChatSession::new("room-1".into(), "me".into(), KeyPair::generate());
    assert_eq!(s.room_id(), "room-1");
    assert!(!s.is_ready());
    assert_eq!(s.current_seq(), 0);
}

#[test]
fn handshake_establishes_encryption() {
    let (mut a, mut b) = pair("room");
    let out = a.process_wire_at(b.mk_handshake(), "notice-1".to_string(), 42);
    assert!(a.is_ready());
    assert_eq!(out.events.len(), 1);
    assert_eq!(out.events[0].id, "notice-1");
    assert_eq!(out.events[0].from, "system");
    assert_eq!(out.events[0].text, "Encryption established");
    assert_eq!(out.events[0].ts, 42);
    assert!(!out.events[0].mine);
    assert!(out.stored.is_empty());
    // a second key changes nothing once ready
    let again = a.process_wire(b.mk_handshake());
    assert!(again.events.is_empty());
    let _ = &mut b;
}

#[test]
fn own_handshake_is_ignored() {
    let (mut a, _b) = pair("room");
    let out = a.process_wire(a.mk_handshake());
    assert!(out.events.is_empty());
    assert!(!a.is_ready());
}

#[test]
fn chat_roundtrip_between_sessions() {
    let (mut a, mut b) = pair("room-x");
    handshake(&mut a, &mut b);
    let w = a.encrypt_and_encode("hello bob").unwrap();
    assert_eq!(a.current_seq(), 1);
    let out = b.process_wire(w.clone());
    assert_eq!(out.events.len(), 1);
    assert_eq!(out.events[0].text, "hello bob");
    assert_eq!(out.events[0].from, "alice");
    assert!(!out.events[0].mine);
    assert_eq!(out.stored.len(), 1);
    assert_eq!(out.stored[0].room_id, "room-x");
    assert_eq!(out.stored[0].from_id, "alice");
    assert_eq!(out.stored[0].text, "hello bob");
    assert_eq!(out.stored[0].id, out.events[0].id);
    // the same message again is ignored
    let dup = b.process_wire(w.clone());
    assert!(dup.events.is_empty());
    assert!(dup.stored.is_empty());
    // our own message echoed back is ignored
    let own = a.process_wire(w);
    assert!(own.events.is_empty());
}

#[test]
fn unicode_text_roundtrip() {
    let (mut a, mut b) = pair("방");
    handshake(&mut a, &mut b);
    let w = a.encrypt_and_encode("안녕 🌍").unwrap();
    let out = b.process_wire(w);
    assert_eq!(out.events[0].text, "안녕 🌍");
}

#[test]
fn encrypt_before_handshake_fails() {
    let (mut a, _b) = pair("room");
    assert_eq!(a.encrypt_and_encode("hi").unwrap_err(), "session not ready");
    // the sequence number advances even when sending fails
    assert_eq!(a.current_seq(), 1);
}

#[test]
fn encrypt_with_fixed_values() {
    let (mut a, mut b) = pair("room");
    handshake(&mut a, &mut b);
    let w = a.encrypt_and_encode_with("x", "id-7".to_string(), [3u8; 12], 99).unwrap();
    match &w {
        WireMessage::Chat(m) => {
            assert_eq!(m.id, "id-7");
            assert_eq!(m.from, "alice");
            assert_eq!(m.seq, 1);
            assert_eq!(m.ts, 99);
            assert_eq!(m.sid.as_deref(), Some("alice"));
            assert_eq!(m.nonce, "AwMDAwMDAwMDAwMD");
            assert_ne!(m.ct, "x");
        }
        _ => panic!("expected a chat message"),
    }
    let out = b.process_wire(w);
    assert_eq!(out.events[0].text, "x");
    assert_eq!(out.events[0].ts, 99);
}

#[test]
fn undecodable_chat_is_remembered_but_not_shown() {
    let (mut a, mut b) = pair("room");
    handshake(&mut a, &mut b);
    let bad = WireMessage::Chat(ChatMessage {
        id: "m1".into(),
        from: "alice".into(),
        ct: "!!!".into(),
        nonce: "AAAA".into(),
        seq: 1,
        ts: 0,
        sid: None,
    });
    assert!(b.process_wire(bad).events.is_empty());
    // a valid message reusing the id is now ignored
    let mut good = a.encrypt_and_encode("later").unwrap();
    if let WireMessage::Chat(m) = &mut good {
        m.id = "m1".into();
    }
    assert!(b.process_wire(good).events.is_empty());
}

#[test]
fn message_with_wrong_seq_is_dropped() {
    let (mut a, mut b) = pair("room");
    handshake(&mut a, &mut b);
    let mut w = a.encrypt_and_encode("hi").unwrap();
    if let WireMessage::Chat(m) = &mut w {
        m.seq = 5;
    }
    assert!(b.process_wire(w).events.is_empty());
}

#[test]
fn handshake_carries_public_key() {
    let kp = KeyPair::from_bytes(&[7u8; 32]);
    let pk = kp.pk;
    let s = ChatSession::new("r".into(), "u".into(), kp);
    match s.mk_handshake() {
        WireMessage::Control(ControlMessage::PublicKey { from, pk: text, sid }) => {
            assert_eq!(from, "u");
            assert_eq!(sid, "u");
            let decoded = base64::engine::general_purpose::STANDARD.decode(text).unwrap();
            assert_eq!(decoded, pk.to_vec());
        }
        _ => panic!("expected a public key"),
    }
}

#[test]
fn short_public_key_is_ignored() {
    let (mut a, _) = pair("room");
    let w = WireMessage::Control(ControlMessage::PublicKey { from: "x".into(), pk: "AAAA".into(), sid: "x".into() });
    assert!(a.process_wire(w).events.is_empty());
    assert!(!a.is_ready());
}

#[test]
fn want_since_uses_last_timestamp() {
    let s = ChatSession::new("r".into(), "me".into(), KeyPair::generate());
    match s.build_want_since(Some(1234)) {
        WireMessage::Control(ControlMessage::WantSince { from, since, sid }) => {
            assert_eq!(from, "me");
            assert_eq!(sid, "me");
            assert_eq!(since, 1234);
        }
        _ => panic!(),
    }
    match s.build_want_since(None) {
        WireMessage::Control(ControlMessage::WantSince { since, .. }) => assert_eq!(since, 0),
        _ => panic!(),
    }
}

#[test]
fn peer_exchange_lists_peers() {
    let s = ChatSession::new("r".into(), "me".into(), KeyPair::generate());
    match s.build_peer_exchange(vec!["/ip4/1.2.3.4/tcp/1".into()]) {
        WireMessage::Control(ControlMessage::PeerExchange { from, peers, sid }) => {
            assert_eq!(from, "me");
            assert_eq!(sid, "me");
            assert_eq!(peers, vec!["/ip4/1.2.3.4/tcp/1".to_string()]);
        }
        _ => panic!(),
    }
}

fn stored(id: &str, from: &str, text: &str, ts: i64) -> StoredMessage {
    StoredMessage { id: id.into(), room_id: "room".into(), from_id: from.into(), text: text.into(), ts }
}

#[test]
fn history_chunk_roundtrip() {
    let (mut a, mut b) = pair("room");
    handshake(&mut a, &mut b);
    let msgs = vec![stored("1", "carol", "old", 10), stored("2", "carol", "new", 20), stored("3", "dave", "newer", 30)];
    let chunk = a.build_history_chunk(&msgs, 15);
    assert_eq!(a.current_seq(), 2);
    match &chunk {
        WireMessage::Control(ControlMessage::HistoryChunk { from, since, items, .. }) => {
            assert_eq!(from, "alice");
            assert_eq!(*since, 15);
            assert_eq!(items.len(), 2);
            assert_eq!(items[0].id, "2");
            assert_eq!(items[0].seq, 1);
            assert_eq!(items[1].from, "dave");
            assert_eq!(items[1].seq, 2);
            assert_eq!(items[1].ts, 30);
        }
        _ => panic!(),
    }
    let out = b.process_wire(chunk);
    let texts: Vec<&str> = out.events.iter().map(|e| e.text.as_str()).collect();
    assert_eq!(texts, vec!["new", "newer"]);
    assert_eq!(out.stored.len(), 2);
    assert_eq!(out.stored[1].from_id, "dave");
}

#[test]
fn history_chunk_without_key_has_empty_payloads() {
    let mut a = ChatSession::new("room".into(), "a".into(), KeyPair::generate());
    let chunk = a.build_history_chunk(&vec![stored("1", "x", "t", 5)], 0);
    match chunk {
        WireMessage::Control(ControlMessage::HistoryChunk { items, .. }) => {
            assert_eq!(items.len(), 1);
            assert_eq!(items[0].ct, "");
            assert_eq!(items[0].nonce, "AAAAAAAAAAAAAAAA");
        }
        _ => panic!(),
    }
}

#[test]
fn own_history_chunk_is_ignored() {
    let (mut a, mut b) = pair("room");
    handshake(&mut a, &mut b);
    let chunk = WireMessage::Control(ControlMessage::HistoryChunk {
        from: "bob".into(),
        since: 0,
        items: vec![HistoryItem { id: "1".into(), from: "x".into(), ct: "".into(), nonce: "".into(), seq: 1, ts: 1 }],
        sid: "bob".into(),
    });
    assert!(b.process_wire(chunk).events.is_empty());
}

#[test]
fn other_messages_show_nothing() {
    let (mut a, _) = pair("room");
    let t = WireMessage::Control(ControlMessage::Typing { from: "b".into(), sid: "b".into() });
    assert!(a.process_wire(t).events.is_empty());
    let ack = WireMessage::Ack(rmsg::protocol::AckMessage { id: "1".into(), from: "b".into(), ts: 3 });
    assert!(a.process_wire(ack).events.is_empty());
}

#[test]
fn clock_is_after_2020() {
    assert!(chrono_now() > 1_577_836_800_000);
}

#[test]
fn replayed_ciphertext_under_fresh_id_is_ignored() {
    let (mut a, mut b) = pair("room-r");
    handshake(&mut a, &mut b);
    let w = a.encrypt_and_encode("pay 5").unwrap();
    let first = b.process_wire(w.clone());
    assert_eq!(first.events.len(), 1);
    let replay = match w {
        WireMessage::Chat(m) => WireMessage::Chat(ChatMessage { id: "another-id".into(), from: "mallory".into(), ..m }),
        _ => panic!(),
    };
    let out = b.process_wire(replay.clone());
    assert!(out.events.is_empty());
    assert!(out.stored.is_empty());
    // still ignored later, after other traffic
    let next = a.encrypt_and_encode("pay 6").unwrap();
    assert_eq!(b.process_wire(next).events.len(), 1);
    assert!(b.process_wire(replay).events.is_empty());
}

#[test]
fn replayed_history_item_is_ignored() {
    let (mut a, mut b) = pair("room-h");
    handshake(&mut a, &mut b);
    let stored = vec![StoredMessage {
        id: "m1".into(),
        room_id: "room-h".into(),
        from_id: "alice".into(),
        text: "old news".into(),
        ts: 10,
    }];
    let chunk = a.build_history_chunk(&stored, 0);
    assert_eq!(b.process_wire(chunk.clone()).events.len(), 1);
    let again = b.process_wire(chunk);
    assert!(again.events.is_empty());
    assert!(again.stored.is_empty());
}

#[test]
fn peer_exchange_gives_addresses_to_dial() {
    let (mut a, b) = pair("room-p");
    let from_b = b.build_peer_exchange(vec!["/ip4/10.0.0.2/tcp/4001/p2p/B".to_string()]);
    let out = a.process_wire(from_b);
    assert_eq!(out.dial, vec!["/ip4/10.0.0.2/tcp/4001/p2p/B".to_string()]);
    assert!(out.events.is_empty());
    let own = a.build_peer_exchange(vec!["/ip4/10.0.0.1/tcp/4001/p2p/A".to_string()]);
    assert!(a.process_wire(own).dial.is_empty());
}

#[test]
fn key_notice_id_is_a_uuid() {
    let (mut a, b) = pair("room-u");
    let out = a.process_wire(b.mk_handshake());
    assert_eq!(out.events[0].id.len(), 36);
    assert!(out.events[0].id.chars().all(|c| c.is_ascii_hexdigit() || c == '-'));
}

#[test]
fn id_of_a_replay_is_remembered() {
    let (mut a, mut b) = pair("room-i");
    handshake(&mut a, &mut b);
    let first = a.encrypt_and_encode("one").unwrap();
    assert_eq!(b.process_wire(first.clone()).events.len(), 1);
    let replay = match first {
        WireMessage::Chat(m) => ChatMessage { id: "dup-id".into(), ..m },
        _ => panic!(),
    };
    assert!(b.process_wire(WireMessage::Chat(replay)).events.is_empty());
    // a genuine message reusing that id is still one already taken
    let second = match a.encrypt_and_encode("two").unwrap() {
        WireMessage::Chat(m) => ChatMessage { id: "dup-id".into(), ..m },
        _ => panic!(),
    };
    assert!(b.process_wire(WireMessage::Chat(second)).events.is_empty());
}

#[test]
fn seal_only_when_ready() {
    let (mut a, mut b) = pair("room-s");
    assert!(a.seal_if_ready("early").is_none());
    assert_eq!(a.current_seq(), 0);
    handshake(&mut a, &mut b);
    let w = a.seal_if_ready("now").unwrap();
    assert_eq!(a.current_seq(), 1);
    let out = b.process_wire(w);
    assert_eq!(out.events[0].text, "now");
}
