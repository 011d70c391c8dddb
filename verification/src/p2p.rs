//! The decisions of a peer in the gossip mesh: which rooms it is in, which
//! envelopes it delivers and passes on, which addresses and peers are new.
//! Sending, dialling and listening are the network layer's work; this module
//! says what to do.

use vstd::prelude::*;

use crate::encoding::{base64_decode, base64_decoding, base64_encode, base64_encoding, same_bytes};
use crate::entropy::new_uuid;

verus! {

/// An application payload wrapped for flooding through the mesh.
#[derive(Debug, Clone)]
pub struct MeshEnvelope {
    pub mesh: u32,
    pub id: String,
    pub room_id: String,
    pub origin: String,
    pub ttl: u32,
    pub payload: String,
}

/// How many hops a new envelope may travel.
pub open spec fn initial_ttl() -> u32 {
    7
}

/// The gossip topic of a room.
pub open spec fn topic_of(room: Seq<char>) -> Seq<char> {
    "rmsg-room-"@ + room
}

/// The address of `peer` reached at `addr`.
pub open spec fn peer_address(addr: Seq<char>, peer: Seq<char>) -> Seq<char> {
    addr + "/p2p/"@ + peer
}

/// The gossip topic of a room.
pub fn room_topic(room_id: &str) -> (t: String)
    ensures
        t@ == topic_of(room_id@),
{
    String::from_str("rmsg-room-").concat(room_id)
}

/// The abstract state of a mesh peer. Each sequence holds distinct items,
/// in the order they were first met.
pub struct MeshView {
    pub local: Seq<char>,
    pub rooms: Seq<Seq<char>>,
    pub seen: Seq<Seq<char>>,
    pub addrs: Seq<Seq<char>>,
    pub peers: Seq<Seq<char>>,
    pub topic_peers: Seq<Seq<char>>,
}

/// What to do with an envelope that arrived.
pub struct MeshDecision {
    /// The payload to hand to the application.
    pub deliver: Option<Vec<u8>>,
    /// The envelope to publish again, one hop shorter.
    pub forward: Option<MeshEnvelope>,
}

pub open spec fn strings_view(v: Seq<String>) -> Seq<Seq<char>> {
    v.map_values(|s: String| s@)
}

/// A set kept as a sequence of distinct items: `x` added unless present.
pub open spec fn set_insert(s: Seq<Seq<char>>, x: Seq<char>) -> Seq<Seq<char>> {
    if s.contains(x) {
        s
    } else {
        s.push(x)
    }
}

/// `x` taken out of a set kept as a sequence.
pub open spec fn set_remove(s: Seq<Seq<char>>, x: Seq<char>) -> Seq<Seq<char>>
    decreases s.len(),
{
    if s.len() == 0 {
        s
    } else {
        let sub = set_remove(s.drop_last(), x);
        if s.last() == x {
            sub
        } else {
            sub.push(s.last())
        }
    }
}

/// The found room list with each of our rooms it lacks appended, in our order.
pub open spec fn merged_rooms(found: Seq<Seq<char>>, ours: Seq<Seq<char>>) -> Seq<Seq<char>>
    decreases ours.len(),
{
    if ours.len() == 0 {
        found
    } else {
        set_insert(merged_rooms(found, ours.drop_last()), ours.last())
    }
}

/// Whether a peer in state `v` takes `env`: a mesh envelope it has not
/// seen before.
pub open spec fn accepts(v: MeshView, env: MeshEnvelope) -> bool {
    env.mesh == 1 && !v.seen.contains(env.id@)
}

/// `f` is `e` passed on: the same envelope with one hop less.
pub open spec fn is_forward_of(f: MeshEnvelope, e: MeshEnvelope) -> bool {
    &&& e.ttl > 0
    &&& f.ttl == e.ttl - 1
    &&& f.mesh == e.mesh
    &&& f.id@ == e.id@
    &&& f.room_id@ == e.room_id@
    &&& f.origin@ == e.origin@
    &&& f.payload@ == e.payload@
}

/// A mesh peer's bookkeeping.
pub struct MeshState {
    local_peer_id: String,
    rooms: Vec<String>,
    seen_mesh: Vec<String>,
    known_addrs: Vec<String>,
    known_peers: Vec<String>,
    topic_peers: Vec<String>,
}

/// Whether `x` is in `v`.
fn contains_string(v: &Vec<String>, x: &String) -> (b: bool)
    ensures
        b == strings_view(v@).contains(x@),
{
    let mut i: usize = 0;
    while i < v.len()
        invariant
            i <= v@.len(),
            forall|j: int| 0 <= j < i ==> v@[j]@ != x@,
        decreases v@.len() - i,
    {
        if v[i] == *x {
            assert(strings_view(v@)[i as int] == x@);
            return true;
        }
        i = i + 1;
    }
    assert forall|j: int| 0 <= j < strings_view(v@).len() implies strings_view(v@)[j] != x@ by {
        assert(strings_view(v@)[j] == v@[j]@);
    }
    false
}

/// Adds `x` to the set `v`; says whether it was new.
fn insert_string(v: &mut Vec<String>, x: &String) -> (added: bool)
    requires
        strings_view(old(v)@).no_duplicates(),
    ensures
        added == !strings_view(old(v)@).contains(x@),
        strings_view(final(v)@) == set_insert(strings_view(old(v)@), x@),
        strings_view(final(v)@).no_duplicates(),
{
    if contains_string(v, x) {
        return false;
    }
    let ghost before = strings_view(v@);
    v.push(x.clone());
    assert(strings_view(v@) =~= before.push(x@));
    proof {
        lemma_push_distinct(before, x@);
    }
    true
}

/// Pushing a new item keeps a sequence's items distinct.
proof fn lemma_push_distinct(s: Seq<Seq<char>>, x: Seq<char>)
    requires
        s.no_duplicates(),
        !s.contains(x),
    ensures
        s.push(x).no_duplicates(),
{
    let t = s.push(x);
    assert forall|a: int, b: int| 0 <= a < t.len() && 0 <= b < t.len() && a != b implies t[a] != t[b] by {
        if a == s.len() {
            assert(s[b] == t[b]);
        } else if b == s.len() {
            assert(s[a] == t[a]);
        }
    }
}

impl View for MeshState {
    type V = MeshView;

    closed spec fn view(&self) -> MeshView {
        MeshView {
            local: self.local_peer_id@,
            rooms: strings_view(self.rooms@),
            seen: strings_view(self.seen_mesh@),
            addrs: strings_view(self.known_addrs@),
            peers: strings_view(self.known_peers@),
            topic_peers: strings_view(self.topic_peers@),
        }
    }
}

impl MeshState {
    /// Each set holds distinct items.
    pub open spec fn wf(&self) -> bool {
        &&& self@.rooms.no_duplicates()
        &&& self@.seen.no_duplicates()
        &&& self@.addrs.no_duplicates()
        &&& self@.peers.no_duplicates()
        &&& self@.topic_peers.no_duplicates()
    }

    /// A peer with identity `local_peer_id` that knows nothing yet.
    pub fn new(local_peer_id: String) -> (s: Self)
        ensures
            s.wf(),
            s@ == (MeshView {
                local: local_peer_id@,
                rooms: seq![],
                seen: seq![],
                addrs: seq![],
                peers: seq![],
                topic_peers: seq![],
            }),
    {
        let s = MeshState {
            local_peer_id,
            rooms: Vec::new(),
            seen_mesh: Vec::new(),
            known_addrs: Vec::new(),
            known_peers: Vec::new(),
            topic_peers: Vec::new(),
        };
        assert(s@.rooms =~= seq![]);
        assert(s@.seen =~= seq![]);
        assert(s@.addrs =~= seq![]);
        assert(s@.peers =~= seq![]);
        assert(s@.topic_peers =~= seq![]);
        s
    }

    /// Our peer id.
    pub fn local_peer_id(&self) -> (id: &str)
        ensures
            id@ == self@.local,
    {
        self.local_peer_id.as_str()
    }

    /// The rooms we are in, in the order we joined them.
    pub fn rooms(&self) -> (r: Vec<String>)
        ensures
            strings_view(r@) == self@.rooms,
    {
        let mut r: Vec<String> = Vec::new();
        let mut i: usize = 0;
        while i < self.rooms.len()
            invariant
                i <= self.rooms@.len(),
                strings_view(r@) == strings_view(self.rooms@).take(i as int),
            decreases self.rooms@.len() - i,
        {
            let ghost before = strings_view(r@);
            r.push(self.rooms[i].clone());
            assert(strings_view(r@) =~= before.push(self.rooms@[i as int]@));
            assert(strings_view(self.rooms@).take(i + 1) =~= strings_view(self.rooms@).take(i as int).push(
                self.rooms@[i as int]@,
            ));
            i = i + 1;
        }
        assert(strings_view(self.rooms@).take(i as int) =~= strings_view(self.rooms@));
        r
    }

    /// Joins a room; gives its topic.
    pub fn join_room(&mut self, room_id: &str) -> (topic: String)
        requires
            old(self).wf(),
        ensures
            final(self).wf(),
            final(self)@ == (MeshView { rooms: set_insert(old(self)@.rooms, room_id@), ..old(self)@ }),
            topic@ == topic_of(room_id@),
    {
        let r = room_id.to_owned();
        let _ = insert_string(&mut self.rooms, &r);
        room_topic(room_id)
    }

    /// Wraps a payload for `room_id` under the envelope id `id`, and
    /// remembers the id so that our own envelope is not taken back.
    pub fn outgoing_with_id(&mut self, room_id: &str, id: String, data: &[u8]) -> (env: MeshEnvelope)
        requires
            old(self).wf(),
        ensures
            final(self).wf(),
            final(self)@ == (MeshView { seen: set_insert(old(self)@.seen, id@), ..old(self)@ }),
            env.mesh == 1,
            env.id@ == id@,
            env.room_id@ == room_id@,
            env.origin@ == old(self)@.local,
            env.ttl == initial_ttl(),
            env.payload@ == base64_encoding(data@),
            base64_decoding(env.payload@) == Some(data@),
    {
        let _ = insert_string(&mut self.seen_mesh, &id);
        MeshEnvelope {
            mesh: 1,
            id,
            room_id: room_id.to_owned(),
            origin: self.local_peer_id.clone(),
            ttl: 7,
            payload: base64_encode(data),
        }
    }

    /// Wraps a payload for `room_id` under a fresh envelope id.
    pub fn outgoing(&mut self, room_id: &str, data: &[u8]) -> (env: MeshEnvelope)
        requires
            old(self).wf(),
        ensures
            final(self).wf(),
            final(self)@ == (MeshView { seen: set_insert(old(self)@.seen, env.id@), ..old(self)@ }),
            env.mesh == 1,
            env.id@.len() == 36,
            env.room_id@ == room_id@,
            env.origin@ == old(self)@.local,
            env.ttl == initial_ttl(),
            env.payload@ == base64_encoding(data@),
            base64_decoding(env.payload@) == Some(data@),
    {
        let id = new_uuid();
        self.outgoing_with_id(room_id, id, data)
    }

    /// Takes an envelope from the mesh. A mesh envelope whose id is new is
    /// remembered, its payload delivered if it decodes, and it is passed on
    /// with one hop less while hops are left. Anything else is dropped.
    pub fn on_envelope(&mut self, env: MeshEnvelope) -> (d: MeshDecision)
        requires
            old(self).wf(),
        ensures
            final(self).wf(),
            if accepts(old(self)@, env) {
                &&& final(self)@ == (MeshView { seen: old(self)@.seen.push(env.id@), ..old(self)@ })
                &&& match d.deliver {
                    Some(p) => base64_decoding(env.payload@) == Some(p@),
                    None => base64_decoding(env.payload@) is None,
                }
                &&& if env.ttl > 0 {
                    d.forward matches Some(f) && is_forward_of(f, env)
                } else {
                    d.forward is None
                }
            } else {
                &&& final(self)@ == old(self)@
                &&& d.deliver is None
                &&& d.forward is None
            },
    {
        if env.mesh != 1 {
            return MeshDecision { deliver: None, forward: None };
        }
        let ghost before = self@;
        if !insert_string(&mut self.seen_mesh, &env.id) {
            return MeshDecision { deliver: None, forward: None };
        }
        assert(self@.seen == before.seen.push(env.id@));
        let deliver = base64_decode(env.payload.as_str());
        let forward = if env.ttl > 0 {
            let mut f = env;
            f.ttl = f.ttl - 1;
            Some(f)
        } else {
            None
        };
        MeshDecision { deliver, forward }
    }

    /// Notes an address to dial; says whether it is new (a known one is not
    /// dialled again).
    pub fn note_addr(&mut self, addr: &str) -> (added: bool)
        requires
            old(self).wf(),
        ensures
            final(self).wf(),
            added == !old(self)@.addrs.contains(addr@),
            final(self)@ == (MeshView { addrs: set_insert(old(self)@.addrs, addr@), ..old(self)@ }),
    {
        insert_string(&mut self.known_addrs, &addr.to_owned())
    }

    /// Notes that `peer` listens at `addr`; gives the peer's full address
    /// where it is new (to be dialled and announced).
    pub fn on_peer_addr(&mut self, peer: &str, addr: &str) -> (full: Option<String>)
        requires
            old(self).wf(),
        ensures
            final(self).wf(),
            final(self)@ == (MeshView {
                addrs: set_insert(old(self)@.addrs, peer_address(addr@, peer@)),
                ..old(self)@
            }),
            match full {
                Some(a) => a@ == peer_address(addr@, peer@) && !old(self)@.addrs.contains(a@),
                None => old(self)@.addrs.contains(peer_address(addr@, peer@)),
            },
    {
        let a = String::from_str(addr).concat("/p2p/").concat(peer);
        if insert_string(&mut self.known_addrs, &a) {
            Some(a)
        } else {
            None
        }
    }

    /// Notes a peer; says whether it is new (to be announced).
    pub fn on_peer(&mut self, peer: &str) -> (added: bool)
        requires
            old(self).wf(),
        ensures
            final(self).wf(),
            added == !old(self)@.peers.contains(peer@),
            final(self)@ == (MeshView { peers: set_insert(old(self)@.peers, peer@), ..old(self)@ }),
    {
        insert_string(&mut self.known_peers, &peer.to_owned())
    }

    /// A peer subscribed to one of our topics.
    pub fn topic_peer_joined(&mut self, peer: &str)
        requires
            old(self).wf(),
        ensures
            final(self).wf(),
            final(self)@ == (MeshView {
                topic_peers: set_insert(old(self)@.topic_peers, peer@),
                ..old(self)@
            }),
    {
        let _ = insert_string(&mut self.topic_peers, &peer.to_owned());
    }

    /// A peer went away.
    pub fn topic_peer_left(&mut self, peer: &str)
        requires
            old(self).wf(),
        ensures
            final(self).wf(),
            final(self)@ == (MeshView {
                topic_peers: set_remove(old(self)@.topic_peers, peer@),
                ..old(self)@
            }),
    {
        let ghost before = self@.topic_peers;
        let p = peer.to_owned();
        let mut kept: Vec<String> = Vec::new();
        let mut i: usize = 0;
        while i < self.topic_peers.len()
            invariant
                i <= self.topic_peers@.len(),
                before == strings_view(self.topic_peers@),
                p@ == peer@,
                strings_view(kept@) == set_remove(before.take(i as int), peer@),
            decreases self.topic_peers@.len() - i,
        {
            assert(before.take(i + 1).drop_last() =~= before.take(i as int));
            assert(before.take(i + 1).last() == before[i as int]);
            let ghost t = before.take(i + 1);
            assert(before[i as int] == self.topic_peers@[i as int]@);
            assert(t.last() == before[i as int]);
            assert(set_remove(t, peer@) == if t.last() == peer@ {
                set_remove(t.drop_last(), peer@)
            } else {
                set_remove(t.drop_last(), peer@).push(t.last())
            });
            if !(self.topic_peers[i] == p) {
                kept.push(self.topic_peers[i].clone());
                assert(strings_view(kept@) =~= set_remove(before.take(i as int), peer@).push(before[i as int]));
            }
            i = i + 1;
        }
        assert(before.take(i as int) =~= before);
        proof {
            lemma_remove_distinct(before, peer@);
        }
        self.topic_peers = kept;
    }

    /// The rooms found in the mesh's shared record with ours added where
    /// missing.
    pub fn merge_rooms(&self, found: Vec<String>) -> (all: Vec<String>)
        ensures
            strings_view(all@) == merged_rooms(strings_view(found@), self@.rooms),
    {
        let mut all = found;
        let mut i: usize = 0;
        while i < self.rooms.len()
            invariant
                i <= self.rooms@.len(),
                strings_view(all@) == merged_rooms(strings_view(found@), self@.rooms.take(i as int)),
            decreases self.rooms@.len() - i,
        {
            assert(self@.rooms.take(i + 1).drop_last() =~= self@.rooms.take(i as int));
            assert(self@.rooms.take(i + 1).last() == self.rooms@[i as int]@);
            if !contains_string(&all, &self.rooms[i]) {
                let ghost before = strings_view(all@);
                all.push(self.rooms[i].clone());
                assert(strings_view(all@) =~= before.push(self.rooms@[i as int]@));
            }
            i = i + 1;
        }
        assert(self@.rooms.take(i as int) =~= self@.rooms);
        all
    }
}

/// The key of the shared record that lists the mesh's rooms: the bytes of
/// `rmsg-active-rooms`.
pub open spec fn rooms_dht_key() -> Seq<u8> {
    seq![114u8, 109, 115, 103, 45, 97, 99, 116, 105, 118, 101, 45, 114, 111, 111, 109, 115]
}

/// The key of the shared record that lists the mesh's rooms.
pub fn rooms_record_key() -> (k: Vec<u8>)
    ensures
        k@ == rooms_dht_key(),
{
    let k: Vec<u8> = vec![114u8, 109, 115, 103, 45, 97, 99, 116, 105, 118, 101, 45, 114, 111, 111, 109, 115];
    assert(k@ =~= rooms_dht_key());
    k
}

/// What `serde_json::from_slice::<Vec<&str>>` makes of `data`: the list of
/// strings, or `None` where it is not a JSON array of strings that can be
/// borrowed as they stand (one with an escape cannot).
pub uninterp spec fn json_string_list(data: Seq<u8>) -> Option<Seq<Seq<char>>>;

/// Calls `serde_json::from_slice::<Vec<&str>>` and copies each string.
/// Trusted: the result is `json_string_list(data)`.
#[verifier::external_body]
pub(crate) fn parse_room_list(data: &[u8]) -> (r: Option<Vec<String>>)
    ensures
        r matches Some(v) ==> json_string_list(data@) == Some(strings_view(v@)),
        r is None ==> json_string_list(data@) is None,
{
    match serde_json::from_slice::<Vec<&str>>(data) {
        Ok(v) => Some(v.into_iter().map(String::from).collect()),
        Err(_) => None,
    }
}

/// How a lookup of a shared record ended.
pub enum KadLookup {
    /// The record was found, with these bytes.
    Found(Vec<u8>),
    /// No record is stored under the key.
    NotFound,
    /// The lookup failed otherwise.
    Failed,
}

impl MeshState {
    /// The rooms to announce when a lookup of the record under `key` ends:
    /// none for another key or a failed lookup; the rooms found (nothing,
    /// where the record does not parse) with ours added; ours where there
    /// is no record.
    pub fn rooms_on_lookup(&self, key: &[u8], outcome: KadLookup) -> (r: Option<Vec<String>>)
        ensures
            key@ != rooms_dht_key() ==> r is None,
            key@ == rooms_dht_key() ==> match outcome {
                KadLookup::Found(d) => r matches Some(v) && strings_view(v@) == merged_rooms(
                    match json_string_list(d@) {
                        Some(l) => l,
                        None => Seq::<Seq<char>>::empty(),
                    },
                    self@.rooms,
                ),
                KadLookup::NotFound => r matches Some(v) && strings_view(v@) == self@.rooms,
                KadLookup::Failed => r is None,
            },
    {
        let k = rooms_record_key();
        if !same_bytes(key, k.as_slice()) {
            return None;
        }
        match outcome {
            KadLookup::Found(d) => {
                let found = match parse_room_list(d.as_slice()) {
                    Some(v) => v,
                    None => {
                        let v: Vec<String> = Vec::new();
                        assert(strings_view(v@) =~= Seq::<Seq<char>>::empty());
                        v
                    },
                };
                Some(self.merge_rooms(found))
            },
            KadLookup::NotFound => Some(self.rooms()),
            KadLookup::Failed => None,
        }
    }
}

/// The peer addresses learnt so far, each once, in the order first learnt.
pub struct AddressBook {
    addrs: Vec<String>,
}

impl View for AddressBook {
    type V = Seq<Seq<char>>;

    closed spec fn view(&self) -> Seq<Seq<char>> {
        strings_view(self.addrs@)
    }
}

impl AddressBook {
    #[verifier::type_invariant]
    spec fn distinct(self) -> bool {
        strings_view(self.addrs@).no_duplicates()
    }

    /// An empty book.
    pub fn new() -> (b: Self)
        ensures
            b@ == Seq::<Seq<char>>::empty(),
    {
        let b = AddressBook { addrs: Vec::new() };
        assert(b@ =~= Seq::<Seq<char>>::empty());
        b
    }

    /// Learns `addr`; says whether it is new.
    pub fn add(&mut self, addr: String) -> (added: bool)
        ensures
            added == !old(self)@.contains(addr@),
            final(self)@ == set_insert(old(self)@, addr@),
    {
        proof {
            use_type_invariant(&*self);
        }
        let mut v: Vec<String> = Vec::new();
        std::mem::swap(&mut v, &mut self.addrs);
        let added = insert_string(&mut v, &addr);
        self.addrs = v;
        added
    }

    /// The addresses, in the order first learnt.
    pub fn list(&self) -> (v: Vec<String>)
        ensures
            strings_view(v@) == self@,
    {
        let mut v: Vec<String> = Vec::new();
        let mut i: usize = 0;
        while i < self.addrs.len()
            invariant
                i <= self.addrs@.len(),
                strings_view(v@) == strings_view(self.addrs@).take(i as int),
            decreases self.addrs@.len() - i,
        {
            let ghost before = strings_view(v@);
            v.push(self.addrs[i].clone());
            assert(strings_view(v@) =~= before.push(self.addrs@[i as int]@));
            assert(strings_view(self.addrs@).take(i + 1) =~= strings_view(self.addrs@).take(i as int).push(
                self.addrs@[i as int]@,
            ));
            i = i + 1;
        }
        assert(strings_view(self.addrs@).take(i as int) =~= strings_view(self.addrs@));
        v
    }
}

/// What is left after a removal was there before.
proof fn lemma_remove_subset(s: Seq<Seq<char>>, x: Seq<char>, y: Seq<char>)
    requires
        set_remove(s, x).contains(y),
    ensures
        s.contains(y),
    decreases s.len(),
{
    if s.len() > 0 {
        let sub = set_remove(s.drop_last(), x);
        if sub.contains(y) {
            lemma_remove_subset(s.drop_last(), x, y);
            let k = choose|k: int| 0 <= k < s.drop_last().len() && s.drop_last()[k] == y;
            assert(s[k] == y);
        } else {
            assert(y == s.last());
            assert(s[s.len() - 1] == y);
        }
    }
}

/// Removal keeps a sequence's items distinct.
proof fn lemma_remove_distinct(s: Seq<Seq<char>>, x: Seq<char>)
    requires
        s.no_duplicates(),
    ensures
        set_remove(s, x).no_duplicates(),
    decreases s.len(),
{
    if s.len() > 0 {
        let d = s.drop_last();
        assert(d.no_duplicates()) by {
            assert forall|a: int, b: int| 0 <= a < d.len() && 0 <= b < d.len() && a != b implies d[a] != d[b] by {
                assert(d[a] == s[a] && d[b] == s[b]);
            }
        }
        lemma_remove_distinct(d, x);
        let sub = set_remove(d, x);
        if s.last() != x {
            if sub.contains(s.last()) {
                lemma_remove_subset(d, x, s.last());
                let k = choose|k: int| 0 <= k < d.len() && d[k] == s.last();
                assert(s[k] == s[s.len() - 1]);
            }
            lemma_push_distinct(sub, s.last());
        }
    }
}

/// An envelope is taken at most once: after a peer has taken it (or sent
/// it), the same envelope id is never taken again.
pub proof fn lemma_envelope_taken_once(v: MeshView, env: MeshEnvelope, again: MeshEnvelope)
    requires
        accepts(v, env),
        again.id@ == env.id@,
    ensures
        !accepts(MeshView { seen: v.seen.push(env.id@), ..v }, again),
{
    assert(v.seen.push(env.id@)[v.seen.len() as int] == again.id@);
}

/// An envelope we sent is never taken back when the mesh returns it.
pub proof fn lemma_own_envelope_not_taken(v: MeshView, id: Seq<char>, env: MeshEnvelope)
    requires
        env.id@ == id,
    ensures
        !accepts(MeshView { seen: set_insert(v.seen, id), ..v }, env),
{
    if !v.seen.contains(id) {
        assert(v.seen.push(id)[v.seen.len() as int] == id);
    }
}

/// Passing on stops: along any chain of peers each passing the envelope on,
/// there are at most as many hops as the first envelope's TTL.
pub proof fn lemma_relay_chain_bounded(chain: Seq<MeshEnvelope>)
    requires
        chain.len() > 0,
        forall|i: int| 0 <= i < chain.len() - 1 ==> is_forward_of(#[trigger] chain[i + 1], chain[i]),
    ensures
        chain.len() <= chain[0].ttl + 1,
    decreases chain.len(),
{
    if chain.len() > 1 {
        let rest = chain.drop_first();
        assert forall|i: int| 0 <= i < rest.len() - 1 implies is_forward_of(#[trigger] rest[i + 1], rest[i]) by {
            assert(rest[i + 1] == chain[i + 2] && rest[i] == chain[i + 1]);
            assert(is_forward_of(chain[(i + 1) + 1], chain[i + 1]));
        }
        lemma_relay_chain_bounded(rest);
        assert(is_forward_of(chain[0int + 1], chain[0int]));
    }
}

/// The set kept as a sequence after noting each of `xs` in turn, from `known`.
pub open spec fn noted(known: Seq<Seq<char>>, xs: Seq<Seq<char>>) -> Seq<Seq<char>>
    decreases xs.len(),
{
    if xs.len() == 0 {
        known
    } else {
        set_insert(noted(known, xs.drop_last()), xs.last())
    }
}

/// What noting each of `xs` in turn reports, from `known`: whether each
/// was new when noted.
pub open spec fn novelty(known: Seq<Seq<char>>, xs: Seq<Seq<char>>) -> Seq<bool>
    decreases xs.len(),
{
    if xs.len() == 0 {
        seq![]
    } else {
        novelty(known, xs.drop_last()).push(!noted(known, xs.drop_last()).contains(xs.last()))
    }
}

/// After noting `xs`, exactly what was known before and what was noted is known.
proof fn lemma_noted_contains(known: Seq<Seq<char>>, xs: Seq<Seq<char>>, y: Seq<char>)
    ensures
        noted(known, xs).contains(y) <==> known.contains(y) || xs.contains(y),
    decreases xs.len(),
{
    if xs.len() > 0 {
        let d = xs.drop_last();
        lemma_noted_contains(known, d, y);
        let prev = noted(known, d);
        if d.contains(y) {
            let k = choose|k: int| 0 <= k < d.len() && d[k] == y;
            assert(xs[k] == y);
        }
        if xs.contains(y) && !d.contains(y) {
            let k = choose|k: int| 0 <= k < xs.len() && xs[k] == y;
            if k < d.len() {
                assert(d[k] == y);
            }
        }
        if prev.contains(y) && !prev.contains(xs.last()) {
            let k = choose|k: int| 0 <= k < prev.len() && prev[k] == y;
            assert(prev.push(xs.last())[k] == y);
        }
        if y == xs.last() && !prev.contains(y) {
            assert(prev.push(y)[prev.len() as int] == y);
        }
        if xs.contains(y) {
            assert(xs[xs.len() - 1] == xs.last());
        }
    }
}

/// Peers are announced and addresses dialled once: when items are noted
/// one after another (as `on_peer`, `note_addr` and `on_peer_addr` note
/// peers and addresses), each is reported new exactly where it first
/// occurs and was not known before, and never again. `AddressBook::add`
/// notes addresses the same way.
pub proof fn lemma_new_exactly_once(known: Seq<Seq<char>>, xs: Seq<Seq<char>>, i: int)
    requires
        0 <= i < xs.len(),
    ensures
        novelty(known, xs).len() == xs.len(),
        novelty(known, xs)[i] == (!known.contains(xs[i]) && !xs.take(i).contains(xs[i])),
    decreases xs.len(),
{
    let d = xs.drop_last();
    if i < d.len() {
        lemma_new_exactly_once(known, d, i);
        assert(d.take(i) =~= xs.take(i));
        assert(d[i] == xs[i]);
    } else {
        if d.len() > 0 {
            lemma_new_exactly_once(known, d, 0);
        } else {
            assert(novelty(known, d) =~= seq![]);
        }
        lemma_noted_contains(known, d, xs.last());
        assert(xs.take(i) =~= d);
    }
}

/// An item noted twice is reported new at most the first time.
pub proof fn lemma_noted_again_not_new(known: Seq<Seq<char>>, xs: Seq<Seq<char>>, i: int, j: int)
    requires
        0 <= i < j < xs.len(),
        xs[i] == xs[j],
    ensures
        !novelty(known, xs)[j],
{
    lemma_new_exactly_once(known, xs, j);
    assert(xs.take(j)[i] == xs[j]);
}

/// What `str::parse::<libp2p::Multiaddr>` makes of a string: the parsed
/// address as `Display` renders it and the tag of each of its protocols
/// (`Protocol::tag`), or `None` where parsing fails.
pub uninterp spec fn multiaddr_parts(addr: Seq<char>) -> Option<(Seq<char>, Seq<Seq<char>>)>;

/// Calls `str::parse::<libp2p::Multiaddr>` and renders the result with
/// `to_string` and `Protocol::tag`. Trusted: the result is
/// `multiaddr_parts(addr)`.
#[verifier::external_body]
fn parse_multiaddr(addr: &str) -> (parts: Option<(String, Vec<String>)>)
    ensures
        match parts {
            Some(p) => multiaddr_parts(addr@) == Some((p.0@, strings_view(p.1@))),
            None => multiaddr_parts(addr@) is None,
        },
{
    match addr.parse::<libp2p::Multiaddr>() {
        Ok(m) => {
            let mut tags: Vec<String> = Vec::new();
            for p in m.iter() {
                tags.push(p.tag().to_string());
            }
            Some((m.to_string(), tags))
        },
        Err(_) => None,
    }
}

/// Why a relay address cannot be reserved.
#[derive(Debug, Clone, Copy, PartialEq, Eq, Structural)]
pub enum RelayAddrError {
    /// The text is not a multiaddr.
    Invalid,
    /// The address names no relay peer.
    MissingPeerId,
}

impl RelayAddrError {
    pub open spec fn message(self) -> Seq<char> {
        match self {
            RelayAddrError::Invalid => "invalid multiaddr"@,
            RelayAddrError::MissingPeerId => "relay address must include /p2p/<peer-id>"@,
        }
    }

    /// The error's message.
    pub fn to_string(&self) -> (s: String)
        ensures
            s@ == self.message(),
    {
        match self {
            RelayAddrError::Invalid => String::from_str("invalid multiaddr"),
            RelayAddrError::MissingPeerId => String::from_str("relay address must include /p2p/<peer-id>"),
        }
    }
}

/// The address to listen on for a reservation at a relay: the relay's
/// address, which must name the relay peer, ending in a circuit.
pub open spec fn reservation_for(parts: Option<(Seq<char>, Seq<Seq<char>>)>) -> Result<Seq<char>, RelayAddrError> {
    match parts {
        None => Err(RelayAddrError::Invalid),
        Some((text, tags)) => if !tags.contains("p2p"@) {
            Err(RelayAddrError::MissingPeerId)
        } else if tags.contains("p2p-circuit"@) {
            Ok(text)
        } else {
            Ok(text + "/p2p-circuit"@)
        },
    }
}

/// Reserving through a reservation address changes nothing, wherever the
/// parser reads that address back as the rendered text it is, with the
/// protocols it was made of: the relay address's, and a circuit where one
/// was appended. (The parser's round trip is an assumption of this
/// statement, not a fact shown here.)
pub proof fn lemma_reservation_stable(addr: Seq<char>, res: Seq<char>)
    requires
        reservation_for(multiaddr_parts(addr)) == Ok::<Seq<char>, RelayAddrError>(res),
        multiaddr_parts(addr) matches Some((text, tags)) && multiaddr_parts(res) == Some(
            (res, if tags.contains("p2p-circuit"@) { tags } else { tags.push("p2p-circuit"@) }),
        ),
    ensures
        reservation_for(multiaddr_parts(res)) == Ok::<Seq<char>, RelayAddrError>(res),
{
    let (text, tags) = multiaddr_parts(addr).unwrap();
    if !tags.contains("p2p-circuit"@) {
        let t2 = tags.push("p2p-circuit"@);
        let j = choose|j: int| 0 <= j < tags.len() && tags[j] == "p2p"@;
        assert(t2[j] == "p2p"@);
        assert(t2[tags.len() as int] == "p2p-circuit"@);
    }
}

/// The address to listen on for a relay reservation through `addr`.
pub fn relay_reservation_addr(addr: &str) -> (r: Result<String, RelayAddrError>)
    ensures
        match (r, reservation_for(multiaddr_parts(addr@))) {
            (Ok(s), Ok(t)) => s@ == t,
            (Err(e), Err(f)) => e == f,
            _ => false,
        },
{
    match parse_multiaddr(addr) {
        None => Err(RelayAddrError::Invalid),
        Some((text, tags)) => {
            let p2p = String::from_str("p2p");
            let circuit = String::from_str("p2p-circuit");
            if !contains_string(&tags, &p2p) {
                return Err(RelayAddrError::MissingPeerId);
            }
            if contains_string(&tags, &circuit) {
                Ok(text)
            } else {
                Ok(text.concat("/p2p-circuit"))
            }
        },
    }
}

} // verus!
