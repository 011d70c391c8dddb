//! One user's conversation in one room: the handshake that establishes the
//! room key, and what is done with each message that arrives or is sent.

use vstd::prelude::*;
use vstd::utf8::encode_utf8;

use crate::crypto::{
    aes256gcm_open, aes256gcm_seal, bytes_to_array12, bytes_to_array32, message_aad, session_key,
    within_aead_limits, x25519_public, CryptoError, CryptoSession, KeyPair,
};
use crate::encoding::{
    same_bytes, base64_decode, base64_decoding, base64_encode, base64_encoding, lossy_text, utf8_lossy,
};
use crate::entropy::{is_uuid_char, new_uuid, random_nonce, unix_time_millis};
use crate::protocol::{ChatMessage, ControlMessage, HistoryItem, WireMessage};
use crate::storage::{StoredMessage, StoredView};

verus! {

/// Something to show the user: a received message, or a notice from "system".
#[derive(Debug, Clone)]
pub struct ChatEvent {
    pub id: String,
    pub from: String,
    pub text: String,
    pub ts: i64,
    pub mine: bool,
}

/// The plain content of an event.
pub struct EventView {
    pub id: Seq<char>,
    pub from: Seq<char>,
    pub text: Seq<char>,
    pub ts: i64,
    pub mine: bool,
}

impl View for ChatEvent {
    type V = EventView;

    open spec fn view(&self) -> EventView {
        EventView { id: self.id@, from: self.from@, text: self.text@, ts: self.ts, mine: self.mine }
    }
}

/// The abstract state of a session.
pub struct SessionState {
    pub room: Seq<char>,
    pub user: Seq<char>,
    pub seq: u64,
    pub secret: Seq<u8>,
    pub public: Seq<u8>,
    pub peer: Option<Seq<u8>>,
    pub key: Option<Seq<u8>>,
    pub ready: bool,
    /// Ids of the chat messages already taken, in arrival order.
    pub seen: Seq<Seq<char>>,
    /// The ciphertexts already opened and shown, in arrival order: a
    /// message that carries one of them again is a replay.
    pub taken: Seq<Seq<u8>>,
}

/// What handling one message produced: events to show, messages to keep
/// and peer addresses to dial.
pub struct WireOutcome {
    pub events: Vec<ChatEvent>,
    pub stored: Vec<StoredMessage>,
    pub dial: Vec<String>,
}

pub open spec fn events_view(v: Seq<ChatEvent>) -> Seq<EventView> {
    v.map_values(|e: ChatEvent| e@)
}

pub open spec fn stored_view(v: Seq<StoredMessage>) -> Seq<StoredView> {
    v.map_values(|m: StoredMessage| m@)
}

/// The stored form of received events.
pub open spec fn stored_of(room: Seq<char>, evs: Seq<EventView>) -> Seq<StoredView> {
    evs.map_values(
        |e: EventView| StoredView { id: e.id, room_id: room, from_id: e.from, text: e.text, ts: e.ts },
    )
}

/// What a base64 ciphertext and nonce carry, for message `seq` of `room`
/// under `key`: the ciphertext's bytes and the text it opens to; `None`
/// unless both decode, the nonce has 12 bytes and the ciphertext
/// authenticates.
pub open spec fn payload_open(
    key: Option<Seq<u8>>,
    room: Seq<char>,
    ct: Seq<char>,
    nonce: Seq<char>,
    seq: u64,
) -> Option<(Seq<u8>, Seq<char>)> {
    match (key, base64_decoding(ct), base64_decoding(nonce)) {
        (Some(k), Some(c), Some(n)) => if n.len() == 12 {
            match aes256gcm_open(k, n, message_aad(room, seq as nat), c) {
                Some(p) => Some((c, lossy_text(p))),
                None => None,
            }
        } else {
            None
        },
        _ => None,
    }
}

pub open spec fn received(id: Seq<char>, from: Seq<char>, text: Seq<char>, ts: i64) -> EventView {
    EventView { id, from, text, ts, mine: false }
}

/// Taking the items of a history chunk, given the ciphertexts taken
/// before: one event per item whose payload opens to a ciphertext not yet
/// taken, in order, and the ciphertexts taken after.
pub open spec fn history_receive(
    key: Option<Seq<u8>>,
    room: Seq<char>,
    taken: Seq<Seq<u8>>,
    items: Seq<HistoryItem>,
) -> (Seq<Seq<u8>>, Seq<EventView>)
    decreases items.len(),
{
    if items.len() == 0 {
        (taken, seq![])
    } else {
        let prev = history_receive(key, room, taken, items.drop_last());
        let it = items.last();
        match payload_open(key, room, it.ct@, it.nonce@, it.seq) {
            Some((c, t)) => if prev.0.contains(c) {
                prev
            } else {
                (prev.0.push(c), prev.1.push(received(it.id@, it.from@, t, it.ts)))
            },
            None => prev,
        }
    }
}

/// The notice shown when the room key is established.
pub open spec fn key_notice(id: Seq<char>, now: i64) -> EventView {
    EventView { id, from: "system"@, text: "Encryption established"@, ts: now, mine: false }
}

/// Taking a chat message: ignored if it is our own or its id was taken
/// before; otherwise its id is remembered and, if its payload opens to a
/// ciphertext not taken before (else it is a replay, and shows nothing),
/// that ciphertext is taken and the message becomes an event.
pub open spec fn receive_chat(s: SessionState, m: ChatMessage) -> (SessionState, Seq<EventView>) {
    if m.from@ == s.user || s.seen.contains(m.id@) {
        (s, seq![])
    } else {
        let s1 = SessionState { seen: s.seen.push(m.id@), ..s };
        match payload_open(s.key, s.room, m.ct@, m.nonce@, m.seq) {
            Some((c, t)) => if s.taken.contains(c) {
                (s1, seq![])
            } else {
                (SessionState { taken: s.taken.push(c), ..s1 }, seq![received(m.id@, m.from@, t, m.ts)])
            },
            None => (s1, seq![]),
        }
    }
}

/// Taking a peer's public key: the first valid key from someone else
/// establishes the room key.
pub open spec fn receive_public_key(s: SessionState, from: Seq<char>, pk: Seq<char>, id: Seq<char>, now: i64) -> (SessionState, Seq<EventView>) {
    if from != s.user && !s.ready {
        match base64_decoding(pk) {
            Some(b) => if b.len() == 32 {
                (
                    SessionState {
                        peer: Some(b),
                        key: Some(session_key(s.room, s.secret, b)),
                        ready: true,
                        ..s
                    },
                    seq![key_notice(id, now)],
                )
            } else {
                (s, seq![])
            },
            None => (s, seq![]),
        }
    } else {
        (s, seq![])
    }
}

/// What taking `wire` does to the session and which events it shows;
/// `id` and `now` are the id and time of a key notice.
pub open spec fn receive(s: SessionState, wire: WireMessage, id: Seq<char>, now: i64) -> (SessionState, Seq<EventView>) {
    match wire {
        WireMessage::Chat(m) => receive_chat(s, m),
        WireMessage::Control(ControlMessage::PublicKey { from, pk, .. }) => receive_public_key(s, from@, pk@, id, now),
        WireMessage::Control(ControlMessage::HistoryChunk { from, items, .. }) => if from@ == s.user {
            (s, seq![])
        } else {
            let r = history_receive(s.key, s.room, s.taken, items@);
            (SessionState { taken: r.0, ..s }, r.1)
        },
        _ => (s, seq![]),
    }
}

/// Which of the events of taking `wire` are kept: all received messages,
/// no notices.
pub open spec fn receive_stored(s: SessionState, wire: WireMessage, id: Seq<char>, now: i64) -> Seq<StoredView> {
    match wire {
        WireMessage::Control(ControlMessage::PublicKey { .. }) => seq![],
        _ => stored_of(s.room, receive(s, wire, id, now).1),
    }
}

/// The addresses to dial on taking `wire`: those another peer tells us it
/// knows; none otherwise.
pub open spec fn receive_dials(s: SessionState, wire: WireMessage) -> Seq<Seq<char>> {
    match wire {
        WireMessage::Control(ControlMessage::PeerExchange { from, peers, .. }) => if from@ == s.user {
            seq![]
        } else {
            peers@.map_values(|a: String| a@)
        },
        _ => seq![],
    }
}

/// The state's parts agree: the key is there exactly when the session is
/// ready, and it is the key of our secret with the peer's public key.
pub open spec fn consistent(s: SessionState) -> bool {
    &&& s.ready == (s.key is Some)
    &&& s.ready ==> (s.peer is Some && s.key == Some(session_key(s.room, s.secret, s.peer.unwrap())))
    &&& s.seen.no_duplicates()
}

/// A chat message carries `text` for `room` under `key`.
pub open spec fn chat_carries(m: ChatMessage, key: Seq<u8>, room: Seq<char>, text: Seq<char>) -> bool {
    &&& base64_decoding(m.ct@) matches Some(c)
    &&& base64_decoding(m.nonce@) matches Some(n)
    &&& n.len() == 12
    &&& aes256gcm_open(key, n, message_aad(room, m.seq as nat), c) == Some(encode_utf8(text))
}

/// The stored messages newer than `since`, in their order.
pub open spec fn pending_after(stored: Seq<StoredMessage>, since: i64) -> Seq<StoredMessage>
    decreases stored.len(),
{
    if stored.len() == 0 {
        seq![]
    } else {
        let prev = pending_after(stored.drop_last(), since);
        if stored.last().ts > since {
            prev.push(stored.last())
        } else {
            prev
        }
    }
}

/// Twelve zero bytes: the nonce a history item gets when it cannot be sealed.
pub open spec fn zero_nonce() -> Seq<u8> {
    Seq::new(12, |i: int| 0u8)
}

/// `item` re-sends `msg` as message `seq`: sealed under `key` where the
/// session has one and the text fits, else with an empty ciphertext and a
/// zero nonce.
pub open spec fn history_item_for(item: HistoryItem, msg: StoredMessage, key: Option<Seq<u8>>, room: Seq<char>, seq: u64) -> bool {
    let plain = encode_utf8(msg.text@);
    let aad = message_aad(room, seq as nat);
    &&& item.id@ == msg.id@
    &&& item.from@ == msg.from_id@
    &&& item.seq == seq
    &&& item.ts == msg.ts
    &&& if key is Some && within_aead_limits(plain, aad) {
        &&& base64_decoding(item.nonce@) matches Some(n)
        &&& n.len() == 12
        &&& item.ct@ == base64_encoding(aes256gcm_seal(key.unwrap(), n, aad, plain))
        &&& base64_decoding(item.ct@) == Some(aes256gcm_seal(key.unwrap(), n, aad, plain))
        &&& aes256gcm_open(key.unwrap(), n, aad, aes256gcm_seal(key.unwrap(), n, aad, plain)) == Some(plain)
    } else {
        &&& item.ct@ == base64_encoding(seq![])
        &&& item.nonce@ == base64_encoding(zero_nonce())
    }
}

/// `m` is the chat message that session state `s` sends for `text` as its
/// next message, sealed under `key`.
pub open spec fn sent_chat(m: ChatMessage, s: SessionState, key: Seq<u8>, text: Seq<char>) -> bool {
    &&& m.from@ == s.user
    &&& m.sid matches Some(sid) && sid@ == s.user
    &&& m.seq == s.seq + 1
    &&& chat_carries(m, key, s.room, text)
}

/// The current time in milliseconds since the Unix epoch, cast into `i64`
/// as `as` does. Nothing is promised of the value: it is the clock's.
pub fn chrono_now() -> (ms: i64) {
    let t = unix_time_millis();
    t as i64
}

/// One user's session in one room.
pub struct ChatSession {
    room_id: String,
    user_id: String,
    seq: u64,
    kp: KeyPair,
    peer_pk: Option<[u8; 32]>,
    cs: CryptoSession,
    ready: bool,
    seen: Vec<String>,
    taken: Vec<Vec<u8>>,
}

impl View for ChatSession {
    type V = SessionState;

    closed spec fn view(&self) -> SessionState {
        SessionState {
            room: self.room_id@,
            user: self.user_id@,
            seq: self.seq,
            secret: self.kp.sk@,
            public: self.kp.pk@,
            peer: match self.peer_pk {
                Some(p) => Some(p@),
                None => None,
            },
            key: self.cs.key(),
            ready: self.ready,
            seen: self.seen@.map_values(|s: String| s@),
            taken: self.taken@.map_values(|c: Vec<u8>| c@),
        }
    }
}

impl ChatSession {
    /// The session's parts agree.
    pub closed spec fn wf(&self) -> bool {
        &&& consistent(self@)
        &&& self.cs.room() == self.room_id@
    }

    /// A well-formed session's state is consistent.
    pub proof fn lemma_consistent(&self)
        requires
            self.wf(),
        ensures
            consistent(self@),
    {
    }

    /// A session of `user_id` in `room_id` with identity `kp`, before any
    /// handshake.
    pub fn new(room_id: String, user_id: String, kp: KeyPair) -> (s: Self)
        ensures
            s.wf(),
            s@ == (SessionState {
                room: room_id@,
                user: user_id@,
                seq: 0,
                secret: kp.sk@,
                public: kp.pk@,
                peer: None,
                key: None,
                ready: false,
                seen: seq![],
                taken: seq![],
            }),
    {
        let cs = CryptoSession::new(room_id.clone());
        let s = ChatSession {
            room_id,
            user_id,
            seq: 0,
            kp,
            peer_pk: None,
            cs,
            ready: false,
            seen: Vec::new(),
            taken: Vec::new(),
        };
        assert(s@.seen =~= seq![]);
        assert(s@.taken =~= seq![]);
        s
    }

    pub fn room_id(&self) -> (r: &str)
        ensures
            r@ == self@.room,
    {
        self.room_id.as_str()
    }

    pub fn is_ready(&self) -> (b: bool)
        ensures
            b == self@.ready,
    {
        self.ready
    }

    pub fn current_seq(&self) -> (n: u64)
        ensures
            n == self@.seq,
    {
        self.seq
    }

    /// Takes the peer's public key and derives the room key from it.
    pub fn set_peer_pk(&mut self, pk: &[u8; 32]) -> (r: Result<(), String>)
        requires
            old(self).wf(),
        ensures
            r is Ok,
            final(self).wf(),
            final(self)@ == (SessionState {
                peer: Some(pk@),
                key: Some(session_key(old(self)@.room, old(self)@.secret, pk@)),
                ready: true,
                ..old(self)@
            }),
            forall|peer_sk: Seq<u8>|
                peer_sk.len() == 32 && pk@ == #[trigger] x25519_public(peer_sk) ==> session_key(
                    old(self)@.room,
                    peer_sk,
                    x25519_public(old(self)@.secret),
                ) == session_key(old(self)@.room, old(self)@.secret, pk@),
    {
        self.peer_pk = Some(*pk);
        match self.cs.start(&self.kp.sk, pk) {
            Ok(()) => {},
            Err(e) => {
                return Err(e.to_string());
            },
        }
        self.ready = true;
        Ok(())
    }

    fn has_seen(&self, id: &String) -> (b: bool)
        ensures
            b == self@.seen.contains(id@),
    {
        let mut i: usize = 0;
        while i < self.seen.len()
            invariant
                i <= self.seen@.len(),
                forall|j: int| 0 <= j < i ==> self.seen@[j]@ != id@,
            decreases self.seen@.len() - i,
        {
            if self.seen[i] == *id {
                assert(self@.seen[i as int] == id@);
                return true;
            }
            i = i + 1;
        }
        assert forall|j: int| 0 <= j < self@.seen.len() implies self@.seen[j] != id@ by {
            assert(self@.seen[j] == self.seen@[j]@);
        }
        false
    }

    fn has_taken(&self, c: &Vec<u8>) -> (b: bool)
        ensures
            b == self@.taken.contains(c@),
    {
        let mut i: usize = 0;
        while i < self.taken.len()
            invariant
                i <= self.taken@.len(),
                forall|j: int| 0 <= j < i ==> self.taken@[j]@ != c@,
            decreases self.taken@.len() - i,
        {
            if same_bytes(self.taken[i].as_slice(), c.as_slice()) {
                assert(self@.taken[i as int] == c@);
                return true;
            }
            i = i + 1;
        }
        assert forall|j: int| 0 <= j < self@.taken.len() implies self@.taken[j] != c@ by {
            assert(self@.taken[j] == self.taken@[j]@);
        }
        false
    }

    fn open_payload(&self, ct: &String, nonce: &String, seq: u64) -> (r: Option<(Vec<u8>, String)>)
        requires
            self.wf(),
        ensures
            match r {
                Some((c, t)) => payload_open(self@.key, self@.room, ct@, nonce@, seq) == Some((c@, t@)),
                None => payload_open(self@.key, self@.room, ct@, nonce@, seq) is None,
            },
    {
        let c = base64_decode(ct.as_str());
        let n = base64_decode(nonce.as_str());
        match (c, n) {
            (Some(c), Some(n)) => {
                if n.len() == 12 {
                    let arr = bytes_to_array12(&n);
                    match self.cs.decrypt(c.as_slice(), &arr, seq) {
                        Ok(p) => Some((c, utf8_lossy(p.as_slice()))),
                        Err(_) => None,
                    }
                } else {
                    None
                }
            },
            _ => None,
        }
    }
}



impl ChatSession {
    /// Takes the items of a history chunk.
    fn receive_history(&mut self, items: &Vec<HistoryItem>, events: &mut Vec<ChatEvent>, stored: &mut Vec<StoredMessage>)
        requires
            old(self).wf(),
            old(events)@.len() == 0,
            old(stored)@.len() == 0,
        ensures
            final(self).wf(),
            final(self)@ == (SessionState {
                taken: history_receive(old(self)@.key, old(self)@.room, old(self)@.taken, items@).0,
                ..old(self)@
            }),
            events_view(final(events)@) == history_receive(old(self)@.key, old(self)@.room, old(self)@.taken, items@).1,
            stored_view(final(stored)@) == stored_of(old(self)@.room, events_view(final(events)@)),
    {
        let ghost s0 = self@;
        let mut i: usize = 0;
        assert(events_view(events@) =~= seq![]);
        assert(stored_view(stored@) =~= seq![]);
        assert(stored_of(s0.room, seq![]) =~= seq![]);
        assert(items@.take(0) =~= seq![]);
        while i < items.len()
            invariant
                self.wf(),
                i <= items@.len(),
                self@ == (SessionState {
                    taken: history_receive(s0.key, s0.room, s0.taken, items@.take(i as int)).0,
                    ..s0
                }),
                events_view(events@) == history_receive(s0.key, s0.room, s0.taken, items@.take(i as int)).1,
                stored_view(stored@) == stored_of(s0.room, events_view(events@)),
            decreases items@.len() - i,
        {
            let item = &items[i];
            let ghost ev_before = events_view(events@);
            let ghost st_before = stored_view(stored@);
            let ghost tk_before = self@.taken;
            assert(items@.take(i + 1).drop_last() =~= items@.take(i as int));
            assert(items@.take(i + 1).last() == items@[i as int]);
            match self.open_payload(&item.ct, &item.nonce, item.seq) {
                Some((c, text)) => {
                    if !self.has_taken(&c) {
                        let ghost cv = c@;
                        self.taken.push(c);
                        assert(self@.taken =~= tk_before.push(cv));
                        stored.push(
                            StoredMessage {
                                id: item.id.clone(),
                                room_id: self.room_id.clone(),
                                from_id: item.from.clone(),
                                text: text.clone(),
                                ts: item.ts,
                            },
                        );
                        events.push(
                            ChatEvent {
                                id: item.id.clone(),
                                from: item.from.clone(),
                                text,
                                ts: item.ts,
                                mine: false,
                            },
                        );
                        let ghost e = received(item.id@, item.from@, events@.last().text@, item.ts);
                        assert(events_view(events@) =~= ev_before.push(e));
                        assert(stored_view(stored@) =~= st_before.push(
                            StoredView { id: e.id, room_id: s0.room, from_id: e.from, text: e.text, ts: e.ts },
                        ));
                        assert(stored_of(s0.room, ev_before.push(e)) =~= stored_of(s0.room, ev_before).push(
                            StoredView { id: e.id, room_id: s0.room, from_id: e.from, text: e.text, ts: e.ts },
                        ));
                    }
                },
                None => {},
            }
            i = i + 1;
        }
        assert(items@.take(items@.len() as int) =~= items@);
    }

    /// Takes one message with a given id and time for a key notice.
    pub fn process_wire_at(&mut self, wire: WireMessage, event_id: String, now: i64) -> (out: WireOutcome)
        requires
            old(self).wf(),
        ensures
            final(self).wf(),
            (final(self)@, events_view(out.events@)) == receive(old(self)@, wire, event_id@, now),
            stored_view(out.stored@) == receive_stored(old(self)@, wire, event_id@, now),
            out.dial@.map_values(|a: String| a@) == receive_dials(old(self)@, wire),
    {
        let mut events: Vec<ChatEvent> = Vec::new();
        let mut stored: Vec<StoredMessage> = Vec::new();
        let ghost s0 = self@;
        match wire {
            WireMessage::Chat(msg) => {
                if msg.from == self.user_id || self.has_seen(&msg.id) {
                    assert(events_view(events@) =~= seq![]);
                    assert(stored_view(stored@) =~= seq![]);
                    assert(stored_of(s0.room, seq![]) =~= seq![]);
                    return WireOutcome { events, stored, dial: Vec::new() };
                }
                self.seen.push(msg.id.clone());
                assert(self@.seen =~= s0.seen.push(msg.id@));
                assert(self@.seen.no_duplicates()) by {
                    assert forall|a: int, b: int|
                        0 <= a < self@.seen.len() && 0 <= b < self@.seen.len() && a != b implies self@.seen[a]
                        != self@.seen[b] by {
                        if a < s0.seen.len() && b < s0.seen.len() {
                        } else if a == s0.seen.len() {
                            assert(s0.seen[b] == self@.seen[b]);
                        } else {
                            assert(s0.seen[a] == self@.seen[a]);
                        }
                    }
                }
                let opened = self.open_payload(&msg.ct, &msg.nonce, msg.seq);
                let fresh = match &opened {
                    Some((c, _)) => !self.has_taken(c),
                    None => true,
                };
                if !fresh {
                    assert(events_view(events@) =~= seq![]);
                    assert(stored_view(stored@) =~= seq![]);
                    assert(stored_of(s0.room, seq![]) =~= seq![]);
                    return WireOutcome { events, stored, dial: Vec::new() };
                }
                match opened {
                    Some((c, text)) => {
                        let ghost cv = c@;
                        self.taken.push(c);
                        assert(self@.taken =~= s0.taken.push(cv));
                        stored.push(
                            StoredMessage {
                                id: msg.id.clone(),
                                room_id: self.room_id.clone(),
                                from_id: msg.from.clone(),
                                text: text.clone(),
                                ts: msg.ts,
                            },
                        );
                        events.push(
                            ChatEvent { id: msg.id, from: msg.from, text, ts: msg.ts, mine: false },
                        );
                    },
                    None => {},
                }
                assert(events_view(events@) =~= receive(s0, wire, event_id@, now).1);
                assert(stored_view(stored@) =~= stored_of(s0.room, events_view(events@)));
            },
            WireMessage::Control(ControlMessage::PublicKey { from, pk, sid }) => {
                if !(from == self.user_id) && !self.ready {
                    if let Some(bytes) = base64_decode(pk.as_str()) {
                        if bytes.len() == 32 {
                            let arr = bytes_to_array32(&bytes);
                            let _ = self.set_peer_pk(&arr);
                            events.push(
                                ChatEvent {
                                    id: event_id,
                                    from: String::from_str("system"),
                                    text: String::from_str("Encryption established"),
                                    ts: now,
                                    mine: false,
                                },
                            );
                        }
                    }
                }
                assert(events_view(events@) =~= receive(s0, wire, event_id@, now).1);
                assert(stored_view(stored@) =~= seq![]);
            },
            WireMessage::Control(ControlMessage::HistoryChunk { from, since, items, sid }) => {
                if !(from == self.user_id) {
                    self.receive_history(&items, &mut events, &mut stored);
                } else {
                    assert(events_view(events@) =~= seq![]);
                    assert(stored_view(stored@) =~= seq![]);
                    assert(stored_of(s0.room, seq![]) =~= seq![]);
                }
            },
            WireMessage::Control(ControlMessage::PeerExchange { from, peers, sid }) => {
                assert(events_view(events@) =~= seq![]);
                assert(stored_view(stored@) =~= seq![]);
                assert(stored_of(s0.room, seq![]) =~= seq![]);
                if !(from == self.user_id) {
                    return WireOutcome { events, stored, dial: peers };
                }
            },
            _ => {
                assert(events_view(events@) =~= seq![]);
                assert(stored_view(stored@) =~= seq![]);
                assert(stored_of(s0.room, seq![]) =~= seq![]);
            },
        }
        WireOutcome { events, stored, dial: Vec::new() }
    }

    /// Takes one message; a key notice gets a fresh id and the current time.
    pub fn process_wire(&mut self, wire: WireMessage) -> (out: WireOutcome)
        requires
            old(self).wf(),
        ensures
            final(self).wf(),
            (exists|id: Seq<char>, now: i64|
                #![trigger receive(old(self)@, wire, id, now)]
                {
                    &&& id.len() == 36
                    &&& forall|i: int| 0 <= i < 36 ==> is_uuid_char(#[trigger] id[i])
                    &&& (final(self)@, events_view(out.events@)) == receive(old(self)@, wire, id, now)
                    &&& stored_view(out.stored@) == receive_stored(old(self)@, wire, id, now)
                }),
            out.dial@.map_values(|a: String| a@) == receive_dials(old(self)@, wire),
    {
        let id = new_uuid();
        let now = chrono_now();
        let ghost idv = id@;
        let out = self.process_wire_at(wire, id, now);
        assert((self@, events_view(out.events@)) == receive(old(self)@, wire, idv, now));
        out
    }
}


impl ChatSession {
    /// Our public key, for the peer.
    pub fn mk_handshake(&self) -> (w: WireMessage)
        ensures
            w matches WireMessage::Control(ControlMessage::PublicKey { from, pk, sid }) && from@
                == self@.user && sid@ == self@.user && pk@ == base64_encoding(self@.public)
                && base64_decoding(pk@) == Some(self@.public),
    {
        let pk = base64_encode(self.kp.pk.as_slice());
        WireMessage::Control(
            ControlMessage::PublicKey { from: self.user_id.clone(), pk, sid: self.user_id.clone() },
        )
    }

    /// A request for the messages after the newest one we keep (`last_ts`,
    /// `None` where we keep none: then everything, from 0).
    pub fn build_want_since(&self, last_ts: Option<i64>) -> (w: WireMessage)
        ensures
            w matches WireMessage::Control(ControlMessage::WantSince { from, since, sid }) && from@
                == self@.user && sid@ == self@.user && since == match last_ts {
                Some(t) => t,
                None => 0,
            },
    {
        let since = match last_ts {
            Some(t) => t,
            None => 0,
        };
        WireMessage::Control(
            ControlMessage::WantSince { from: self.user_id.clone(), since, sid: self.user_id.clone() },
        )
    }

    /// The peer addresses we know, for the peer.
    pub fn build_peer_exchange(&self, peers: Vec<String>) -> (w: WireMessage)
        ensures
            w matches WireMessage::Control(ControlMessage::PeerExchange { from, peers: p, sid })
                && from@ == self@.user && sid@ == self@.user && p@ == peers@,
    {
        WireMessage::Control(
            ControlMessage::PeerExchange { from: self.user_id.clone(), peers, sid: self.user_id.clone() },
        )
    }

    /// Seals `text` as our next message, with the given id, nonce and time.
    pub fn encrypt_and_encode_with(&mut self, text: &str, id: String, nonce: [u8; 12], now: i64) -> (r: Result<WireMessage, String>)
        requires
            old(self).wf(),
            old(self)@.seq < u64::MAX,
        ensures
            final(self).wf(),
            final(self)@ == (SessionState { seq: (old(self)@.seq + 1) as u64, ..old(self)@ }),
            match old(self)@.key {
                None => r matches Err(e) && e@ == CryptoError::NotReady.message(),
                Some(k) => {
                    let aad = message_aad(old(self)@.room, (old(self)@.seq + 1) as nat);
                    if within_aead_limits(encode_utf8(text@), aad) {
                        &&& r matches Ok(WireMessage::Chat(m))
                        &&& sent_chat(m, old(self)@, k, text@)
                        &&& m.id@ == id@
                        &&& m.ts == now
                        &&& m.nonce@ == base64_encoding(nonce@)
                        &&& m.ct@ == base64_encoding(aes256gcm_seal(k, nonce@, aad, encode_utf8(text@)))
                    } else {
                        r matches Err(e) && e@ == CryptoError::Encryption.message()
                    }
                },
            },
    {
        self.seq = self.seq + 1;
        let enc = match self.cs.encrypt_with_nonce(text.as_bytes(), self.seq, nonce) {
            Ok(e) => e,
            Err(e) => {
                return Err(e.to_string());
            },
        };
        let ct = base64_encode(enc.ct.as_slice());
        let nonce_text = base64_encode(enc.nonce.as_slice());
        Ok(
            WireMessage::Chat(
                ChatMessage {
                    id,
                    from: self.user_id.clone(),
                    ct,
                    nonce: nonce_text,
                    seq: self.seq,
                    ts: now,
                    sid: Some(self.user_id.clone()),
                },
            ),
        )
    }

    /// Seals `text` as our next message, with a fresh id, a random nonce
    /// and the current time.
    pub fn encrypt_and_encode(&mut self, text: &str) -> (r: Result<WireMessage, String>)
        requires
            old(self).wf(),
            old(self)@.seq < u64::MAX,
        ensures
            final(self).wf(),
            final(self)@ == (SessionState { seq: (old(self)@.seq + 1) as u64, ..old(self)@ }),
            match old(self)@.key {
                None => r matches Err(e) && e@ == CryptoError::NotReady.message(),
                Some(k) => if within_aead_limits(
                    encode_utf8(text@),
                    message_aad(old(self)@.room, (old(self)@.seq + 1) as nat),
                ) {
                    &&& r matches Ok(WireMessage::Chat(m))
                    &&& sent_chat(m, old(self)@, k, text@)
                    &&& m.id@.len() == 36
                } else {
                    r matches Err(e) && e@ == CryptoError::Encryption.message()
                },
            },
    {
        let id = new_uuid();
        let nonce = random_nonce();
        let now = chrono_now();
        self.encrypt_and_encode_with(text, id, nonce, now)
    }

    /// Seals `text` as our next message where the session is ready; a
    /// session that is not ready sends nothing and stays as it is.
    pub fn seal_if_ready(&mut self, text: &str) -> (r: Option<WireMessage>)
        requires
            old(self).wf(),
            old(self)@.ready ==> old(self)@.seq < u64::MAX,
        ensures
            final(self).wf(),
            !old(self)@.ready ==> r is None && final(self)@ == old(self)@,
            old(self)@.ready ==> {
                let aad = message_aad(old(self)@.room, (old(self)@.seq + 1) as nat);
                &&& final(self)@ == (SessionState { seq: (old(self)@.seq + 1) as u64, ..old(self)@ })
                &&& (r is Some <==> within_aead_limits(encode_utf8(text@), aad))
                &&& (r matches Some(w) ==> (w matches WireMessage::Chat(m) && sent_chat(
                    m,
                    old(self)@,
                    old(self)@.key.unwrap(),
                    text@,
                )))
            },
    {
        if !self.ready {
            return None;
        }
        proof {
            self.lemma_consistent();
        }
        match self.encrypt_and_encode(text) {
            Ok(w) => Some(w),
            Err(_) => None,
        }
    }

    /// Re-sends the stored messages newer than `since`, each sealed as our
    /// next message.
    pub fn build_history_chunk(&mut self, stored: &Vec<StoredMessage>, since: i64) -> (w: WireMessage)
        requires
            old(self).wf(),
            old(self)@.seq + pending_after(stored@, since).len() <= u64::MAX,
        ensures
            final(self).wf(),
            final(self)@ == (SessionState {
                seq: (old(self)@.seq + pending_after(stored@, since).len()) as u64,
                ..old(self)@
            }),
            w matches WireMessage::Control(ControlMessage::HistoryChunk { from, since: s, items, sid })
                && from@ == old(self)@.user && sid@ == old(self)@.user && s == since
                && items@.len() == pending_after(stored@, since).len() && forall|k: int|
                0 <= k < items@.len() ==> history_item_for(
                    #[trigger] items@[k],
                    pending_after(stored@, since)[k],
                    old(self)@.key,
                    old(self)@.room,
                    (old(self)@.seq + k + 1) as u64,
                ),
    {
        let ghost s0 = self@;
        let mut items: Vec<HistoryItem> = Vec::new();
        let mut i: usize = 0;
        while i < stored.len()
            invariant
                self.wf(),
                i <= stored@.len(),
                self@ == (SessionState { seq: (s0.seq + items@.len()) as u64, ..s0 }),
                s0.seq + pending_after(stored@, since).len() <= u64::MAX,
                items@.len() == pending_after(stored@.take(i as int), since).len(),
                forall|k: int|
                    0 <= k < items@.len() ==> history_item_for(
                        #[trigger] items@[k],
                        pending_after(stored@.take(i as int), since)[k],
                        s0.key,
                        s0.room,
                        (s0.seq + k + 1) as u64,
                    ),
            decreases stored@.len() - i,
        {
            assert(stored@.take(i + 1).drop_last() =~= stored@.take(i as int));
            assert(stored@.take(i + 1).last() == stored@[i as int]);
            proof {
                lemma_pending_prefix(stored@, since, i as int);
                lemma_pending_monotone(stored@, since, i + 1);
            }
            let m = &stored[i];
            if m.ts > since {
                self.seq = self.seq + 1;
                let (ct, nonce) = match self.cs.encrypt(m.text.as_str().as_bytes(), self.seq) {
                    Ok(e) => (e.ct, e.nonce),
                    Err(_) => (Vec::new(), [0u8; 12]),
                };
                assert(ct@.len() == 0 ==> ct@ =~= seq![]);
                let ghost n0 = nonce@;
                let ghost items_before = items@;
                let item = HistoryItem {
                    id: m.id.clone(),
                    from: m.from_id.clone(),
                    ct: base64_encode(ct.as_slice()),
                    nonce: base64_encode(nonce.as_slice()),
                    seq: self.seq,
                    ts: m.ts,
                };
                proof {
                    let plain = encode_utf8(m.text@);
                    let aad = message_aad(s0.room, self.seq as nat);
                    if !(s0.key is Some && within_aead_limits(plain, aad)) {
                        assert(ct@ =~= seq![]);
                        assert(n0 =~= zero_nonce());
                    }
                }
                items.push(item);
                assert(items@.len() == pending_after(stored@.take(i + 1), since).len());
                assert forall|k: int| 0 <= k < items@.len() implies history_item_for(
                    #[trigger] items@[k],
                    pending_after(stored@.take(i + 1), since)[k],
                    s0.key,
                    s0.room,
                    (s0.seq + k + 1) as u64,
                ) by {
                    if k < items@.len() - 1 {
                        assert(items@[k] == items_before[k]);
                    }
                }
            }
            i = i + 1;
        }
        assert(stored@.take(stored@.len() as int) =~= stored@);
        WireMessage::Control(
            ControlMessage::HistoryChunk {
                from: self.user_id.clone(),
                since,
                items,
                sid: self.user_id.clone(),
            },
        )
    }
}

/// Extending the messages by one adds it to the pending ones exactly when
/// it is newer than `since`.
proof fn lemma_pending_prefix(stored: Seq<StoredMessage>, since: i64, i: int)
    requires
        0 <= i < stored.len(),
    ensures
        pending_after(stored.take(i + 1), since) == if stored[i].ts > since {
            pending_after(stored.take(i), since).push(stored[i])
        } else {
            pending_after(stored.take(i), since)
        },
        pending_after(stored.take(i), since).len() <= pending_after(stored, since).len(),
    decreases stored.len() - i,
{
    assert(stored.take(i + 1).drop_last() =~= stored.take(i));
    lemma_pending_monotone(stored, since, i);
}

/// A prefix has no more pending messages than the whole.
proof fn lemma_pending_monotone(stored: Seq<StoredMessage>, since: i64, i: int)
    requires
        0 <= i <= stored.len(),
    ensures
        pending_after(stored.take(i), since).len() <= pending_after(stored, since).len(),
    decreases stored.len() - i,
{
    if i < stored.len() {
        lemma_pending_monotone(stored, since, i + 1);
        assert(stored.take(i + 1).drop_last() =~= stored.take(i));
    } else {
        assert(stored.take(i) =~= stored);
    }
}


/// What one side sends is what the other side reads: a chat message that
/// carries `text` under the receiver's key, from someone else, not taken
/// before and not a replay of a ciphertext already shown, becomes exactly
/// one event with that text.
pub proof fn lemma_chat_delivered(receiver: SessionState, m: ChatMessage, key: Seq<u8>, text: Seq<char>)
    requires
        chat_carries(m, key, receiver.room, text),
        receiver.key == Some(key),
        m.from@ != receiver.user,
        !receiver.seen.contains(m.id@),
        base64_decoding(m.ct@) matches Some(c) && !receiver.taken.contains(c),
    ensures
        receive_chat(receiver, m).1 == seq![received(m.id@, m.from@, text, m.ts)],
        receive_chat(receiver, m).0.seen == receiver.seen.push(m.id@),
        receive_chat(receiver, m).0.taken == receiver.taken.push(base64_decoding(m.ct@).unwrap()),
{
    vstd::utf8::encode_utf8_valid_utf8(text);
    vstd::utf8::encode_utf8_decode_utf8(text);
    assert(lossy_text(encode_utf8(text)) == text);
}

/// A chat message is taken at most once: after it has been taken, the same
/// message again changes nothing and shows nothing.
pub proof fn lemma_chat_taken_once(s: SessionState, m: ChatMessage)
    ensures
        receive_chat(receive_chat(s, m).0, m) == (receive_chat(s, m).0, Seq::<EventView>::empty()),
{
    if m.from@ != s.user {
        lemma_id_taken_once(s, m, m);
    }
}

/// An id is taken once: after a message from someone else has been taken,
/// whether it opened or not, any message with the same id changes nothing
/// and shows nothing.
pub proof fn lemma_id_taken_once(s: SessionState, m: ChatMessage, again: ChatMessage)
    requires
        m.from@ != s.user,
        again.id@ == m.id@,
    ensures
        receive_chat(receive_chat(s, m).0, again) == (receive_chat(s, m).0, Seq::<EventView>::empty()),
{
    let s2 = receive_chat(s, m).0;
    if !(m.from@ == s.user || s.seen.contains(m.id@)) {
        assert(s2.seen.last() == m.id@);
        assert(s2.seen.contains(again.id@));
    }
}

/// A message that opens to a ciphertext already taken is a replay: it
/// shows nothing, whatever its id, and takes no ciphertext.
pub proof fn lemma_replay_ignored(s: SessionState, m: ChatMessage)
    requires
        payload_open(s.key, s.room, m.ct@, m.nonce@, m.seq) matches Some((c, _)) && s.taken.contains(c),
    ensures
        receive_chat(s, m).1 == Seq::<EventView>::empty(),
        receive_chat(s, m).0 == (SessionState { seen: receive_chat(s, m).0.seen, ..s }),
{
}

/// A shown chat message cannot be shown again: once `m` has produced an
/// event, any message with the same ciphertext, nonce and sequence number,
/// under any id and from anyone, shows nothing and takes no ciphertext.
pub proof fn lemma_replay_after_delivery(s: SessionState, m: ChatMessage, again: ChatMessage)
    requires
        receive_chat(s, m).1.len() > 0,
        again.ct@ == m.ct@,
        again.nonce@ == m.nonce@,
        again.seq == m.seq,
    ensures
        receive_chat(receive_chat(s, m).0, again).1 == Seq::<EventView>::empty(),
        receive_chat(receive_chat(s, m).0, again).0.taken == receive_chat(s, m).0.taken,
{
    let s2 = receive_chat(s, m).0;
    let c = payload_open(s.key, s.room, m.ct@, m.nonce@, m.seq).unwrap().0;
    assert(s2.taken.last() == c);
    assert(s2.taken.contains(c));
}

/// Taking the items of a history chunk forgets no ciphertext taken before.
proof fn lemma_history_keeps_taken(
    key: Option<Seq<u8>>,
    room: Seq<char>,
    taken: Seq<Seq<u8>>,
    items: Seq<HistoryItem>,
    c: Seq<u8>,
)
    requires
        taken.contains(c),
    ensures
        history_receive(key, room, taken, items).0.contains(c),
    decreases items.len(),
{
    if items.len() > 0 {
        lemma_history_keeps_taken(key, room, taken, items.drop_last(), c);
        let t = history_receive(key, room, taken, items.drop_last()).0;
        let j = choose|j: int| 0 <= j < t.len() && t[j] == c;
        let it = items.last();
        if let Some((x, _)) = payload_open(key, room, it.ct@, it.nonce@, it.seq) {
            assert(t.push(x)[j] == c);
        }
    }
}

/// Ciphertexts taken from a history chunk come from its items.
proof fn lemma_history_taken_from(
    key: Option<Seq<u8>>,
    room: Seq<char>,
    taken: Seq<Seq<u8>>,
    items: Seq<HistoryItem>,
    c: Seq<u8>,
)
    requires
        history_receive(key, room, taken, items).0.contains(c),
    ensures
        taken.contains(c) || exists|k: int| 0 <= k < items.len() && base64_decoding(#[trigger] items[k].ct@) == Some(c),
    decreases items.len(),
{
    if items.len() > 0 {
        let prev = history_receive(key, room, taken, items.drop_last());
        let it = items.last();
        if prev.0.contains(c) {
            lemma_history_taken_from(key, room, taken, items.drop_last(), c);
            if !taken.contains(c) {
                let k = choose|k: int| 0 <= k < items.drop_last().len() && base64_decoding(#[trigger] items.drop_last()[k].ct@) == Some(c);
                assert(items[k] == items.drop_last()[k]);
            }
        } else {
            assert(base64_decoding(items[items.len() - 1].ct@) == Some(c));
        }
    }
}

/// A ciphertext once taken stays taken, whatever arrives.
pub proof fn lemma_taken_kept(s: SessionState, w: WireMessage, id: Seq<char>, now: i64, c: Seq<u8>)
    requires
        s.taken.contains(c),
    ensures
        receive(s, w, id, now).0.taken.contains(c),
{
    match w {
        WireMessage::Chat(m) => {
            let s2 = receive(s, w, id, now).0;
            if s2.taken != s.taken {
                let j = choose|j: int| 0 <= j < s.taken.len() && s.taken[j] == c;
                assert(s2.taken[j] == c);
            }
        },
        WireMessage::Control(ControlMessage::HistoryChunk { from, items, .. }) => {
            if from@ != s.user {
                lemma_history_keeps_taken(s.key, s.room, s.taken, items@, c);
            }
        },
        _ => {},
    }
}

/// Our own messages, echoed back, are ignored.
pub proof fn lemma_own_chat_ignored(s: SessionState, m: ChatMessage)
    requires
        m.from@ == s.user,
    ensures
        receive_chat(s, m) == (s, Seq::<EventView>::empty()),
{
}

/// Ids once taken are never forgotten, whatever arrives.
pub proof fn lemma_seen_kept(s: SessionState, w: WireMessage, id: Seq<char>, now: i64, x: Seq<char>)
    requires
        s.seen.contains(x),
    ensures
        receive(s, w, id, now).0.seen.contains(x),
{
    if let WireMessage::Chat(m) = w {
        let s2 = receive(s, w, id, now).0;
        if s2.seen != s.seen {
            let j = choose|j: int| 0 <= j < s.seen.len() && s.seen[j] == x;
            assert(s2.seen[j] == x);
        }
    }
}

/// The room key is established once: once ready, a public key changes
/// nothing and shows nothing.
pub proof fn lemma_key_established_once(s: SessionState, from: Seq<char>, pk: Seq<char>, id: Seq<char>, now: i64)
    requires
        s.ready,
    ensures
        receive_public_key(s, from, pk, id, now) == (s, Seq::<EventView>::empty()),
{
}

/// Taking any message keeps the session's parts in agreement.
pub proof fn lemma_receive_consistent(s: SessionState, w: WireMessage, id: Seq<char>, now: i64)
    requires
        consistent(s),
    ensures
        consistent(receive(s, w, id, now).0),
{
    if let WireMessage::Chat(m) = w {
        let s2 = receive(s, w, id, now).0;
        if s2.seen != s.seen {
            let t = s.seen.push(m.id@);
            assert(s2.seen == t);
            assert forall|a: int, b: int| 0 <= a < t.len() && 0 <= b < t.len() && a != b implies t[a] != t[b] by {
                if a == s.seen.len() {
                    assert(s.seen[b] == t[b]);
                } else if b == s.seen.len() {
                    assert(s.seen[a] == t[a]);
                }
            }
        }
    }
}


/// The event a re-sent stored message becomes on the receiving side.
pub open spec fn delivered_history(msgs: Seq<StoredMessage>) -> Seq<EventView> {
    msgs.map_values(|m: StoredMessage| received(m.id@, m.from_id@, m.text@, m.ts))
}

/// The items' ciphertexts are new: none was taken before and no two items
/// carry the same one.
pub open spec fn fresh_ciphertexts(taken: Seq<Seq<u8>>, items: Seq<HistoryItem>) -> bool {
    &&& forall|k: int, c: Seq<u8>|
        0 <= k < items.len() && #[trigger] taken.contains(c) ==> base64_decoding(#[trigger] items[k].ct@) != Some(c)
    &&& forall|j: int, k: int|
        0 <= j < k < items.len() ==> base64_decoding(#[trigger] items[j].ct@) != base64_decoding(#[trigger] items[k].ct@)
}

/// A history chunk read back: when every item re-sends its stored message
/// sealed under the receiver's key, and no item replays a ciphertext, the
/// receiver shows exactly those messages, in order.
pub proof fn lemma_history_delivered(
    key: Seq<u8>,
    room: Seq<char>,
    taken: Seq<Seq<u8>>,
    items: Seq<HistoryItem>,
    msgs: Seq<StoredMessage>,
    seq0: u64,
)
    requires
        items.len() == msgs.len(),
        seq0 + items.len() <= u64::MAX,
        forall|k: int|
            0 <= k < items.len() ==> history_item_for(
                #[trigger] items[k],
                msgs[k],
                Some(key),
                room,
                (seq0 + k + 1) as u64,
            ),
        forall|k: int|
            0 <= k < msgs.len() ==> within_aead_limits(
                encode_utf8(#[trigger] msgs[k].text@),
                message_aad(room, (seq0 + k + 1) as nat),
            ),
        fresh_ciphertexts(taken, items),
    ensures
        history_receive(Some(key), room, taken, items).1 == delivered_history(msgs),
    decreases items.len(),
{
    if items.len() == 0 {
        assert(delivered_history(msgs) =~= seq![]);
    } else {
        let n = items.len() - 1;
        let pre = items.drop_last();
        assert forall|k: int| 0 <= k < pre.len() implies history_item_for(
            #[trigger] pre[k],
            msgs.drop_last()[k],
            Some(key),
            room,
            (seq0 + k + 1) as u64,
        ) by {
            assert(pre[k] == items[k]);
        }
        assert forall|k: int| 0 <= k < msgs.drop_last().len() implies within_aead_limits(
            encode_utf8(#[trigger] msgs.drop_last()[k].text@),
            message_aad(room, (seq0 + k + 1) as nat),
        ) by {
            assert(msgs.drop_last()[k] == msgs[k]);
        }
        assert(fresh_ciphertexts(taken, pre)) by {
            assert forall|k: int, c: Seq<u8>|
                0 <= k < pre.len() && #[trigger] taken.contains(c) implies base64_decoding(#[trigger] pre[k].ct@) != Some(c) by {
                assert(pre[k] == items[k]);
            }
            assert forall|j: int, k: int|
                0 <= j < k < pre.len() implies base64_decoding(#[trigger] pre[j].ct@) != base64_decoding(#[trigger] pre[k].ct@) by {
                assert(pre[j] == items[j]);
                assert(pre[k] == items[k]);
            }
        }
        lemma_history_delivered(key, room, taken, pre, msgs.drop_last(), seq0);
        let it = items.last();
        let m = msgs.last();
        assert(history_item_for(items[n], msgs[n], Some(key), room, (seq0 + n + 1) as u64));
        assert(within_aead_limits(encode_utf8(msgs[n].text@), message_aad(room, (seq0 + n + 1) as nat)));
        vstd::utf8::encode_utf8_valid_utf8(m.text@);
        vstd::utf8::encode_utf8_decode_utf8(m.text@);
        let c = base64_decoding(it.ct@).unwrap();
        assert(payload_open(Some(key), room, it.ct@, it.nonce@, it.seq) == Some((c, m.text@)));
        let t = history_receive(Some(key), room, taken, pre).0;
        if t.contains(c) {
            lemma_history_taken_from(Some(key), room, taken, pre, c);
            if taken.contains(c) {
                assert(base64_decoding(items[n].ct@) != Some(c));
            } else {
                let k = choose|k: int| 0 <= k < pre.len() && base64_decoding(#[trigger] pre[k].ct@) == Some(c);
                assert(pre[k] == items[k]);
                assert(base64_decoding(items[k].ct@) != base64_decoding(items[n].ct@));
            }
        }
        assert(delivered_history(msgs) =~= delivered_history(msgs.drop_last()).push(
            received(m.id@, m.from_id@, m.text@, m.ts),
        ));
    }
}

/// A history item whose payload does not open under the key (bad base64,
/// a nonce not of 12 bytes, or failed authentication) shows nothing, keeps
/// nothing and takes no ciphertext.
pub proof fn lemma_history_skips_unopened(
    key: Option<Seq<u8>>,
    room: Seq<char>,
    taken: Seq<Seq<u8>>,
    items: Seq<HistoryItem>,
    it: HistoryItem,
)
    requires
        payload_open(key, room, it.ct@, it.nonce@, it.seq) is None,
    ensures
        history_receive(key, room, taken, items.push(it)) == history_receive(key, room, taken, items),
{
    assert(items.push(it).drop_last() =~= items);
}

/// `e` is what item `it` shows: its payload opens under `key`, and `e`
/// carries the item's id, sender and time and the text it opens to.
pub open spec fn shows_item(key: Option<Seq<u8>>, room: Seq<char>, it: HistoryItem, e: EventView) -> bool {
    &&& payload_open(key, room, it.ct@, it.nonce@, it.seq) matches Some((c, t))
    &&& e == received(it.id@, it.from@, t, it.ts)
}

/// `e` is what one of `items` shows.
pub open spec fn shown_by_some(key: Option<Seq<u8>>, room: Seq<char>, items: Seq<HistoryItem>, e: EventView) -> bool {
    exists|j: int| 0 <= j < items.len() && #[trigger] shows_item(key, room, items[j], e)
}

/// Each of `evs` is what one of `items` shows.
pub open spec fn all_shown(key: Option<Seq<u8>>, room: Seq<char>, items: Seq<HistoryItem>, evs: Seq<EventView>) -> bool {
    forall|k: int| 0 <= k < evs.len() ==> #[trigger] shown_by_some(key, room, items, evs[k])
}

/// Every event of a history chunk is one of its items that opens: it
/// carries that item's id, sender and time, and the text its payload opens
/// to; and there are no more events than items.
pub proof fn lemma_history_events_open(
    key: Option<Seq<u8>>,
    room: Seq<char>,
    taken: Seq<Seq<u8>>,
    items: Seq<HistoryItem>,
)
    ensures
        history_receive(key, room, taken, items).1.len() <= items.len(),
        all_shown(key, room, items, history_receive(key, room, taken, items).1),
    decreases items.len(),
{
    let cur = history_receive(key, room, taken, items).1;
    if items.len() > 0 {
        let d = items.drop_last();
        lemma_history_events_open(key, room, taken, d);
        let prev = history_receive(key, room, taken, d).1;
        let n = items.len() - 1;
        assert forall|k: int| 0 <= k < cur.len() implies #[trigger] shown_by_some(key, room, items, cur[k]) by {
            if k < prev.len() {
                assert(cur[k] == prev[k]);
                assert(shown_by_some(key, room, d, prev[k]));
                let j = choose|j: int| 0 <= j < d.len() && #[trigger] shows_item(key, room, d[j], prev[k]);
                assert(d[j] == items[j]);
                assert(shows_item(key, room, items[j], cur[k]));
            } else {
                let it = items.last();
                assert(items[n] == it);
                let (c, t) = payload_open(key, room, it.ct@, it.nonce@, it.seq).unwrap();
                assert(cur == prev.push(received(it.id@, it.from@, t, it.ts)));
                assert(cur[k] == received(it.id@, it.from@, t, it.ts));
                assert(shows_item(key, room, items[n], cur[k]));
            }
        }
    } else {
        assert(cur.len() == 0);
    }
}

} // verus!
