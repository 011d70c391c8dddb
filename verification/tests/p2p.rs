use rmsg::p2p::{
    relay_reservation_addr, room_topic, rooms_record_key, AddressBook, KadLookup, MeshEnvelope, MeshState, RelayAddrError,
};

fn envelope(id: &str, ttl: u32, payload: &str) -> MeshEnvelope {
    MeshEnvelope {
        mesh: 1,
        id: id.into(),
        room_id: "room".into(),
        origin: "peer".into(),
        ttl,
        payload: payload.into(),
    }
}

#[test]
fn topic_names() {
    assert_eq!(room_topic("room-1"), "rmsg-room-room-1");
}

#[test]
fn outgoing_envelope_and_no_echo() {
    let mut s = MeshState::new("me".into());
    let env = s.outgoing_with_id("room", "e1".into(), b"hi");
    assert_eq!(env.mesh, 1);
    assert_eq!(env.ttl, 7);
    assert_eq!(env.origin, "me");
    assert_eq!(env.room_id, "room");
    assert_eq!(env.payload, "aGk=");
    let d = s.on_envelope(env);
    assert!(d.deliver.is_none());
    assert!(d.forward.is_none());
}

#[test]
fn outgoing_gets_fresh_ids() {
    let mut s = MeshState::new("me".into());
    let a = s.outgoing("room", b"x");
    let b = s.outgoing("room", b"x");
    assert_eq!(a.id.len(), 36);
    assert_ne!(a.id, b.id);
}

#[test]
fn new_envelope_is_delivered_and_forwarded_once() {
    let mut s = MeshState::new("me".into());
    let d = s.on_envelope(envelope("x", 3, "aGk="));
    assert_eq!(d.deliver, Some(b"hi".to_vec()));
    let f = d.forward.unwrap();
    assert_eq!(f.ttl, 2);
    assert_eq!(f.id, "x");
    let again = s.on_envelope(envelope("x", 3, "aGk="));
    assert!(again.deliver.is_none() && again.forward.is_none());
}

#[test]
fn exhausted_envelope_is_delivered_not_forwarded() {
    let mut s = MeshState::new("me".into());
    let d = s.on_envelope(envelope("y", 0, "aGk="));
    assert_eq!(d.deliver, Some(b"hi".to_vec()));
    assert!(d.forward.is_none());
}

#[test]
fn bad_payload_is_not_delivered_but_forwarded() {
    let mut s = MeshState::new("me".into());
    let d = s.on_envelope(envelope("z", 1, "***"));
    assert!(d.deliver.is_none());
    assert_eq!(d.forward.unwrap().ttl, 0);
}

#[test]
fn non_mesh_envelope_is_dropped() {
    let mut s = MeshState::new("me".into());
    let mut e = envelope("w", 3, "aGk=");
    e.mesh = 2;
    let d = s.on_envelope(e);
    assert!(d.deliver.is_none() && d.forward.is_none());
    // and its id was not remembered
    assert!(s.on_envelope(envelope("w", 3, "aGk=")).deliver.is_some());
}

#[test]
fn relay_chain_stops() {
    let mut hops = 0;
    let mut e = envelope("c", 7, "aGk=");
    loop {
        let mut s = MeshState::new("p".into());
        match s.on_envelope(e).forward {
            Some(f) => {
                hops += 1;
                e = f;
            }
            None => break,
        }
    }
    assert_eq!(hops, 7);
}

#[test]
fn addresses_and_peers_are_new_once() {
    let mut s = MeshState::new("me".into());
    assert!(s.note_addr("/ip4/1.1.1.1/tcp/1"));
    assert!(!s.note_addr("/ip4/1.1.1.1/tcp/1"));
    assert_eq!(s.on_peer_addr("P", "/ip4/2.2.2.2/tcp/2"), Some("/ip4/2.2.2.2/tcp/2/p2p/P".to_string()));
    assert_eq!(s.on_peer_addr("P", "/ip4/2.2.2.2/tcp/2"), None);
    assert!(s.on_peer("P"));
    assert!(!s.on_peer("P"));
}

#[test]
fn rooms_join_and_merge() {
    let mut s = MeshState::new("me".into());
    assert_eq!(s.join_room("a"), "rmsg-room-a");
    s.join_room("b");
    s.join_room("a");
    assert_eq!(s.rooms(), vec!["a".to_string(), "b".to_string()]);
    let merged = s.merge_rooms(vec!["c".into(), "b".into()]);
    assert_eq!(merged, vec!["c".to_string(), "b".to_string(), "a".to_string()]);
}

#[test]
fn topic_peers_join_and_leave() {
    let mut s = MeshState::new("me".into());
    s.topic_peer_joined("p1");
    s.topic_peer_joined("p2");
    s.topic_peer_left("p1");
    s.topic_peer_left("p3");
    assert_eq!(s.local_peer_id(), "me");
}

const RELAY: &str = "/ip4/127.0.0.1/tcp/4001/p2p/QmNnooDu7bfjPFoTZYxMNLWUQJyrVwtbZg5gBMjTezGAJN";

#[test]
fn relay_reservation_appends_circuit() {
    assert_eq!(relay_reservation_addr(RELAY).unwrap(), format!("{}/p2p-circuit", RELAY));
}

#[test]
fn relay_reservation_keeps_circuit() {
    let with = format!("{}/p2p-circuit", RELAY);
    assert_eq!(relay_reservation_addr(&with).unwrap(), with);
}

#[test]
fn relay_reservation_errors() {
    assert_eq!(relay_reservation_addr("/ip4/127.0.0.1/tcp/4001").unwrap_err(), RelayAddrError::MissingPeerId);
    assert_eq!(relay_reservation_addr("not an address").unwrap_err(), RelayAddrError::Invalid);
    assert_eq!(RelayAddrError::MissingPeerId.to_string(), "relay address must include /p2p/<peer-id>");
}

#[test]
fn peers_announced_once_over_a_run() {
    let mut s = MeshState::new("me".into());
    let run = ["A", "B", "A", "C", "B", "A"];
    let news: Vec<bool> = run.iter().map(|p| s.on_peer(p)).collect();
    assert_eq!(news, vec![true, true, false, true, false, false]);
    let addrs = ["/ip4/1.1.1.1/tcp/1", "/ip4/1.1.1.1/tcp/1", "/ip4/3.3.3.3/tcp/3"];
    let dialled: Vec<bool> = addrs.iter().map(|a| s.note_addr(a)).collect();
    assert_eq!(dialled, vec![true, false, true]);
}

#[test]
fn room_record_lookups() {
    let mut s = MeshState::new("me".into());
    s.join_room("a");
    s.join_room("b");
    let key = rooms_record_key();
    assert_eq!(key, b"rmsg-active-rooms".to_vec());
    assert!(s.rooms_on_lookup(b"other-key", KadLookup::NotFound).is_none());
    assert_eq!(
        s.rooms_on_lookup(&key, KadLookup::Found(br#"["x","b"]"#.to_vec())),
        Some(vec!["x".to_string(), "b".to_string(), "a".to_string()])
    );
    // not a list of plain strings: nothing found, ours announced
    assert_eq!(
        s.rooms_on_lookup(&key, KadLookup::Found(br#"["x\"y"]"#.to_vec())),
        Some(vec!["a".to_string(), "b".to_string()])
    );
    assert_eq!(s.rooms_on_lookup(&key, KadLookup::Found(b"garbage".to_vec())), Some(vec!["a".to_string(), "b".to_string()]));
    assert_eq!(s.rooms_on_lookup(&key, KadLookup::NotFound), Some(vec!["a".to_string(), "b".to_string()]));
    assert!(s.rooms_on_lookup(&key, KadLookup::Failed).is_none());
}

#[test]
fn address_book_keeps_each_once() {
    let mut b = AddressBook::new();
    assert!(b.add("/ip4/1.1.1.1/tcp/1".into()));
    assert!(b.add("/ip4/2.2.2.2/tcp/2".into()));
    assert!(!b.add("/ip4/1.1.1.1/tcp/1".into()));
    assert_eq!(b.list(), vec!["/ip4/1.1.1.1/tcp/1".to_string(), "/ip4/2.2.2.2/tcp/2".to_string()]);
}
