//! The graphical interface's state and what each user action and network
//! event does to it. Painting widgets is the toolkit's work.

use vstd::prelude::*;

use crate::cli::new_room_id;
use crate::crypto::{x25519_public, KeyPair};
use crate::digits::{decimal_digits, push_decimal};
use crate::display::now_ms;
use crate::encoding::{string_from_chars, trim, trimmed};
use crate::entropy::new_uuid;
use crate::protocol::{ControlMessage, WireMessage};
use crate::session::{events_view, ChatEvent, ChatSession, EventView, WireOutcome};
use crate::storage::StoredMessage;

verus! {

/// Which screen is shown.
#[derive(Debug, Clone)]
pub enum Screen {
    Lobby,
    ChatRoom(String),
}

/// Work for the network layer.
#[derive(Debug)]
pub enum GuiCmd {
    JoinRoom(String),
    Send(String, WireMessage),
}

/// How the connection line is coloured.
#[derive(Debug, Clone, Copy, PartialEq, Eq, Structural)]
pub enum StatusTone {
    Secure,
    Waiting,
}

/// The interface's state.
pub struct GuiState {
    pub screen: Screen,
    pub name: String,
    pub rooms: Vec<String>,
    pub error: String,
    pub session: Option<ChatSession>,
    pub messages: Vec<ChatEvent>,
    pub input: String,
    pub peers: Vec<String>,
    pub send_hs: bool,
    pub peer_typing: bool,
    pub room_alias: String,
    pub connection_status: String,
    pub room_alias_input: String,
    pub pending_clipboard: Option<String>,
    pub join_input: String,
    pub kp: KeyPair,
}

/// "" for one, "s" otherwise.
pub open spec fn plural(n: nat) -> Seq<char> {
    if n == 1 {
        Seq::empty()
    } else {
        "s"@
    }
}

/// The connection line for `n` known peers.
pub open spec fn connected_text(n: nat) -> Seq<char> {
    "Connected ("@ + decimal_digits(n) + " peer"@ + plural(n) + ")"@
}

/// The lobby's network line for `n` known peers.
pub open spec fn network_text(n: nat) -> Seq<char> {
    (if n == 0 { "\u{25cb}"@ } else { "\u{25cf}"@ }) + " network ("@ + decimal_digits(n) + " peer"@
        + plural(n) + ")"@
}

/// The notice shown on entering a room.
pub open spec fn room_notice(room: Seq<char>) -> Seq<char> {
    "Room: "@ + room + " \u{2014} copied to clipboard. Share with your peer."@
}

/// The connection line after showing events: it names the last sender
/// other than ourselves and "system".
pub open spec fn status_after(evs: Seq<EventView>, status: Seq<char>) -> Seq<char>
    decreases evs.len(),
{
    if evs.len() == 0 {
        status
    } else {
        let e = evs.last();
        if !e.mine && e.from != "system"@ {
            "Chatting with "@ + e.from
        } else {
            status_after(evs.drop_last(), status)
        }
    }
}

/// `hay` holds `needle` somewhere.
pub open spec fn has_substring(hay: Seq<char>, needle: Seq<char>) -> bool {
    exists|i: int| 0 <= i <= hay.len() - needle.len() && #[trigger] hay.subrange(i, i + needle.len()) == needle
}

pub open spec fn names(v: Seq<String>) -> Seq<Seq<char>> {
    v.map_values(|s: String| s@)
}

/// The state is usable: any session is well formed.
pub open spec fn gui_ok(s: GuiState) -> bool {
    s.session matches Some(c) ==> c.wf()
}

/// `new` is `old` with room `room` entered.
pub open spec fn gui_entered(old: GuiState, new: GuiState, room: Seq<char>) -> bool {
    &&& new.session matches Some(s) && s.wf() && s@.room == room && s@.user == old.name@
        && s@.secret == old.kp.sk@ && s@.public == x25519_public(old.kp.sk@) && s@.seq == 0
        && !s@.ready && s@.seen.len() == 0 && s@.taken.len() == 0
    &&& new.messages@.len() == 1
    &&& new.messages@[0].from@ == "system"@
    &&& new.messages@[0].text@ == room_notice(room)
    &&& !new.messages@[0].mine
    &&& new.send_hs
    &&& new.connection_status@ == "Waiting for peer..."@
    &&& new.room_alias@ == room
    &&& new.room_alias_input@.len() == 0
    &&& (new.pending_clipboard matches Some(c) && c@ == room)
    &&& (new.screen matches Screen::ChatRoom(r) && r@ == room)
    &&& new == GuiState {
        session: new.session,
        messages: new.messages,
        send_hs: new.send_hs,
        connection_status: new.connection_status,
        room_alias: new.room_alias,
        room_alias_input: new.room_alias_input,
        pending_clipboard: new.pending_clipboard,
        screen: new.screen,
        ..old
    }
}

fn count_label(n: usize, prefix: &str) -> (s: String)
    ensures
        s@ == prefix@ + decimal_digits(n as nat) + " peer"@ + plural(n as nat) + ")"@,
{
    let mut digits: Vec<char> = Vec::new();
    push_decimal(n as u64, &mut digits);
    let d = string_from_chars(&digits);
    let s = String::from_str(prefix).concat(d.as_str()).concat(" peer");
    let s = if n == 1 { s } else { s.concat("s") };
    proof {
        reveal_strlit("s");
    }
    s.concat(")")
}

/// The connection line for `n` known peers.
pub fn connected_label(n: usize) -> (s: String)
    ensures
        s@ == connected_text(n as nat),
{
    count_label(n, "Connected (")
}

/// The lobby's network line for `n` known peers.
pub fn network_label(n: usize) -> (s: String)
    ensures
        s@ == network_text(n as nat),
{
    proof {
        reveal_strlit("\u{25cb} network (");
        reveal_strlit("\u{25cf} network (");
        reveal_strlit("\u{25cb}");
        reveal_strlit("\u{25cf}");
        reveal_strlit(" network (");
        assert("\u{25cb} network ("@ =~= "\u{25cb}"@ + " network ("@);
        assert("\u{25cf} network ("@ =~= "\u{25cf}"@ + " network ("@);
    }
    let s = if n == 0 {
        count_label(n, "\u{25cb} network (")
    } else {
        count_label(n, "\u{25cf} network (")
    };
    proof {
        let d = decimal_digits(n as nat);
        let dot = if n == 0 { "\u{25cb}"@ } else { "\u{25cf}"@ };
        assert(s@ =~= dot + " network ("@ + d + " peer"@ + plural(n as nat) + ")"@);
    }
    s
}

/// Whether `needle` occurs in `hay`.
pub fn contains_text(hay: &str, needle: &str) -> (b: bool)
    ensures
        b == has_substring(hay@, needle@),
{
    let h = hay.unicode_len();
    let n = needle.unicode_len();
    if n > h {
        assert(!has_substring(hay@, needle@));
        return false;
    }
    let mut i: usize = 0;
    while i <= h - n
        invariant
            h == hay@.len(),
            n == needle@.len(),
            n <= h,
            i <= h - n + 1,
            forall|k: int| 0 <= k < i ==> #[trigger] hay@.subrange(k, k + n) != needle@,
        decreases h - n + 1 - i,
    {
        let mut j: usize = 0;
        let mut same = true;
        while j < n
            invariant
                h == hay@.len(),
                n == needle@.len(),
                i + n <= h,
                j <= n,
                same == (forall|k: int| 0 <= k < j ==> hay@[i + k] == needle@[k]),
            decreases n - j,
        {
            if hay.get_char(i + j) != needle.get_char(j) {
                same = false;
            }
            j = j + 1;
        }
        if same {
            assert(hay@.subrange(i as int, i + n) =~= needle@);
            return true;
        }
        assert(hay@.subrange(i as int, i + n) != needle@) by {
            let k = choose|k: int| 0 <= k < n && hay@[i + k] != needle@[k];
            assert(hay@.subrange(i as int, i + n)[k] == hay@[i + k]);
        }
        i = i + 1;
    }
    false
}

impl GuiState {
    /// The lobby, listing the rooms kept on this device.
    pub fn new(rooms: Vec<String>, kp: KeyPair) -> (s: Self)
        ensures
            s.screen is Lobby,
            s.name@.len() == 0,
            s.rooms == rooms,
            s.error@.len() == 0,
            s.session is None,
            s.messages@.len() == 0,
            s.input@.len() == 0,
            s.peers@.len() == 0,
            !s.send_hs,
            !s.peer_typing,
            s.room_alias@.len() == 0,
            s.connection_status@.len() == 0,
            s.room_alias_input@.len() == 0,
            s.pending_clipboard is None,
            s.join_input@.len() == 0,
            s.kp == kp,
    {
        GuiState {
            screen: Screen::Lobby,
            name: String::new(),
            rooms,
            error: String::new(),
            session: None,
            messages: Vec::new(),
            input: String::new(),
            peers: Vec::new(),
            send_hs: false,
            peer_typing: false,
            room_alias: String::new(),
            connection_status: String::new(),
            room_alias_input: String::new(),
            pending_clipboard: None,
            join_input: String::new(),
            kp,
        }
    }

    /// Enters `room_id`: a fresh session with our name and identity, the
    /// handshake due, a notice that the id was copied. Gives the command to
    /// join it.
    pub fn enter_room(&mut self, room_id: &str) -> (cmd: GuiCmd)
        ensures
            gui_entered(*old(self), *final(self), room_id@),
            cmd matches GuiCmd::JoinRoom(r) && r@ == room_id@,
    {
        let kp = KeyPair::from_bytes(&self.kp.to_bytes());
        self.session = Some(ChatSession::new(room_id.to_owned(), self.name.clone(), kp));
        self.messages = Vec::new();
        self.send_hs = true;
        self.connection_status = String::from_str("Waiting for peer...");
        self.room_alias = room_id.to_owned();
        self.room_alias_input = String::new();
        self.pending_clipboard = Some(room_id.to_owned());
        let text = String::from_str("Room: ").concat(room_id).concat(
            " \u{2014} copied to clipboard. Share with your peer.",
        );
        let id = new_uuid();
        let ts = now_ms();
        self.messages.push(
            ChatEvent { id, from: String::from_str("system"), text, ts, mine: false },
        );
        self.screen = Screen::ChatRoom(room_id.to_owned());
        GuiCmd::JoinRoom(room_id.to_owned())
    }

    /// Creates a room with a fresh id and enters it.
    pub fn create_room(&mut self) -> (cmd: GuiCmd)
        ensures
            cmd matches GuiCmd::JoinRoom(r) && r@.len() == 13 && r@.subrange(0, 5) == "room-"@
                && gui_entered(*old(self), *final(self), r@),
    {
        let room_id = new_room_id();
        self.enter_room(room_id.as_str())
    }

    /// Joins the room typed in the join field, if anything was typed.
    pub fn join_from_input(&mut self) -> (cmd: Option<GuiCmd>)
        ensures
            if old(self).join_input@.len() == 0 {
                *final(self) == *old(self) && cmd is None
            } else {
                cmd matches Some(GuiCmd::JoinRoom(r)) && r@ == trimmed(old(self).join_input@)
                    && final(self).join_input@.len() == 0 && gui_entered(
                    GuiState { join_input: final(self).join_input, ..*old(self) },
                    *final(self),
                    r@,
                )
            },
    {
        if self.join_input.as_str().is_empty() {
            return None;
        }
        let rid = trim(self.join_input.as_str());
        self.join_input = String::new();
        Some(self.enter_room(rid.as_str()))
    }

    /// Leaves the room for the lobby.
    pub fn go_back(&mut self)
        ensures
            final(self).screen is Lobby,
            final(self).session is None,
            final(self).connection_status@.len() == 0,
            *final(self) == (GuiState {
                screen: final(self).screen,
                session: final(self).session,
                connection_status: final(self).connection_status,
                ..*old(self)
            }),
    {
        self.screen = Screen::Lobby;
        self.session = None;
        self.connection_status = String::new();
    }

    /// A peer was found: it is remembered and counted on the connection line.
    pub fn on_peer_discovered(&mut self, peer: String)
        ensures
            names(final(self).peers@) == if names(old(self).peers@).contains(peer@) {
                names(old(self).peers@)
            } else {
                names(old(self).peers@).push(peer@)
            },
            final(self).connection_status@ == connected_text(final(self).peers@.len()),
            *final(self) == (GuiState {
                peers: final(self).peers,
                connection_status: final(self).connection_status,
                ..*old(self)
            }),
    {
        let mut i: usize = 0;
        let mut found = false;
        while i < self.peers.len()
            invariant
                i <= self.peers@.len(),
                found == (exists|k: int| 0 <= k < i && #[trigger] self.peers@[k]@ == peer@),
            decreases self.peers@.len() - i,
        {
            if self.peers[i] == peer {
                found = true;
            }
            i = i + 1;
        }
        proof {
            if found {
                let k = choose|k: int| 0 <= k < self.peers@.len() && #[trigger] self.peers@[k]@ == peer@;
                assert(names(self.peers@)[k] == peer@);
            } else {
                assert forall|k: int| 0 <= k < names(self.peers@).len() implies names(self.peers@)[k] != peer@ by {
                    assert(names(self.peers@)[k] == self.peers@[k]@);
                }
            }
        }
        if !found {
            let ghost before = names(self.peers@);
            self.peers.push(peer);
            assert(names(self.peers@) =~= before.push(peer@));
        }
        self.connection_status = connected_label(self.peers.len());
    }

    /// A network error is shown.
    pub fn on_error(&mut self, e: String)
        ensures
            *final(self) == (GuiState { error: e, ..*old(self) }),
    {
        self.error = e;
    }

    /// Our topic has a subscriber: the connection line counts our peers,
    /// and right after entering a room our public key and a request for
    /// what we missed since `last_ts` go out.
    pub fn on_subscribed(&mut self, last_ts: Option<i64>) -> (cmds: Vec<GuiCmd>)
        ensures
            final(self).connection_status@ == if old(self).peers@.len() > 0 {
                connected_text(old(self).peers@.len())
            } else {
                old(self).connection_status@
            },
            final(self).send_hs == false,
            *final(self) == (GuiState {
                connection_status: final(self).connection_status,
                send_hs: final(self).send_hs,
                ..*old(self)
            }),
            if old(self).send_hs && old(self).session is Some {
                cmds@.len() == 2 && (cmds@[0] matches GuiCmd::Send(r0, w0) && cmds@[1] matches GuiCmd::Send(
                    r1,
                    w1,
                ) && crate::tui::subscribed_sends(
                    crate::tui::TuiCmd::Send(r0, w0),
                    crate::tui::TuiCmd::Send(r1, w1),
                    old(self).session.unwrap()@,
                    last_ts,
                ))
            } else {
                cmds@.len() == 0
            },
    {
        let mut cmds: Vec<GuiCmd> = Vec::new();
        if self.peers.len() > 0 {
            self.connection_status = connected_label(self.peers.len());
        }
        if self.send_hs {
            self.send_hs = false;
            match &self.session {
                Some(s) => {
                    cmds.push(GuiCmd::Send(s.room_id().to_owned(), s.mk_handshake()));
                    cmds.push(GuiCmd::Send(s.room_id().to_owned(), s.build_want_since(last_ts)));
                },
                None => {},
            }
        }
        self.send_hs = false;
        cmds
    }

    /// A message arrived in the room. A typing notice only marks the peer
    /// as typing; anything else goes to the session, whose events are shown
    /// and whose readable messages are returned to be kept.
    pub fn on_wire(&mut self, wire: WireMessage) -> (stored: Vec<StoredMessage>)
        requires
            gui_ok(*old(self)),
        ensures
            gui_ok(*final(self)),
            match old(self).session {
                None => *final(self) == *old(self) && stored@.len() == 0,
                Some(s) => if wire is Control && wire->Control_0 is Typing {
                    *final(self) == (GuiState { peer_typing: true, ..*old(self) }) && stored@.len() == 0
                } else {
                    exists|id: Seq<char>, now: i64| {
                        let (s2, evs) = #[trigger] crate::session::receive(s@, wire, id, now);
                        &&& final(self).session matches Some(t) && t@ == s2
                        &&& events_view(final(self).messages@) == events_view(old(self).messages@) + evs
                        &&& final(self).connection_status@ == status_after(evs, old(self).connection_status@)
                        &&& crate::session::stored_view(stored@) == crate::session::receive_stored(s@, wire, id, now)
                    } && *final(self) == (GuiState {
                        session: final(self).session,
                        messages: final(self).messages,
                        connection_status: final(self).connection_status,
                        ..*old(self)
                    })
                },
            },
    {
        if self.session.is_none() {
            return Vec::new();
        }
        if let WireMessage::Control(ControlMessage::Typing { .. }) = &wire {
            self.peer_typing = true;
            return Vec::new();
        }
        let ghost s0 = self.session.unwrap()@;
        let ghost w0 = wire;
        let mut session = self.session.take().unwrap();
        let out: WireOutcome = session.process_wire(wire);
        self.session = Some(session);
        let ghost (id, now) = choose|id: Seq<char>, now: i64|
            (self.session.unwrap()@, events_view(out.events@)) == crate::session::receive(s0, w0, id, now)
                && crate::session::stored_view(out.stored@) == crate::session::receive_stored(s0, w0, id, now);
        let ghost evs = events_view(out.events@);
        let ghost m0 = events_view(self.messages@);
        let ghost st0 = self.connection_status@;
        let mut i: usize = 0;
        let events = out.events;
        let ghost mid = *self;
        while i < events.len()
            invariant
                *self == (GuiState { messages: self.messages, connection_status: self.connection_status, ..mid }),
                i <= events@.len(),
                events_view(events@) == evs,
                events_view(self.messages@) == m0 + evs.take(i as int),
                self.connection_status@ == status_after(evs.take(i as int), st0),
            decreases events@.len() - i,
        {
            let e = &events[i];
            assert(evs.take(i + 1).drop_last() =~= evs.take(i as int));
            assert(evs.take(i + 1).last() == e@);
            if !e.mine && !(e.from == String::from_str("system")) {
                self.connection_status = String::from_str("Chatting with ").concat(e.from.as_str());
            }
            let ghost before = events_view(self.messages@);
            self.messages.push(
                ChatEvent {
                    id: e.id.clone(),
                    from: e.from.clone(),
                    text: e.text.clone(),
                    ts: e.ts,
                    mine: e.mine,
                },
            );
            assert(events_view(self.messages@) =~= before.push(e@));
            assert(m0 + evs.take(i + 1) =~= (m0 + evs.take(i as int)).push(e@));
            i = i + 1;
        }
        assert(evs.take(i as int) =~= evs);
        out.stored
    }

    /// The connection line of the chat screen and its colour.
    pub fn status_line(&self) -> (r: (StatusTone, String))
        ensures
            match self.session {
                Some(s) if s@.ready => r.0 == StatusTone::Secure && r.1@ == if has_substring(
                    self.connection_status@,
                    "Chatting"@,
                ) {
                    "\u{1f512} End-to-end encrypted \u{2014} "@ + self.connection_status@
                } else {
                    "\u{1f512} End-to-end encrypted"@
                },
                _ => r.0 == StatusTone::Waiting && r.1@ == if self.connection_status@.len() == 0 {
                    "\u{23f3} Waiting for peer..."@
                } else {
                    self.connection_status@
                },
            },
    {
        let ready = match &self.session {
            Some(s) => s.is_ready(),
            None => false,
        };
        if ready {
            if contains_text(self.connection_status.as_str(), "Chatting") {
                (
                    StatusTone::Secure,
                    String::from_str("\u{1f512} End-to-end encrypted \u{2014} ").concat(
                        self.connection_status.as_str(),
                    ),
                )
            } else {
                (StatusTone::Secure, String::from_str("\u{1f512} End-to-end encrypted"))
            }
        } else if self.connection_status.as_str().is_empty() {
            (StatusTone::Waiting, String::from_str("\u{23f3} Waiting for peer..."))
        } else {
            (StatusTone::Waiting, self.connection_status.clone())
        }
    }

    /// The chat screen's title: the alias where it differs from the id.
    pub fn heading(&self, room_id: &str) -> (h: String)
        ensures
            h@ == if self.room_alias@ != room_id@ { self.room_alias@ } else { room_id@ },
    {
        let r = room_id.to_owned();
        if !(self.room_alias == r) {
            self.room_alias.clone()
        } else {
            r
        }
    }

    /// Copies the room id to the clipboard.
    pub fn copy_room_id(&mut self, room_id: &str)
        ensures
            final(self).pending_clipboard matches Some(c) && c@ == room_id@,
            *final(self) == (GuiState { pending_clipboard: final(self).pending_clipboard, ..*old(self) }),
    {
        self.pending_clipboard = Some(room_id.to_owned());
    }

    /// The typing notice we send.
    pub fn typing_message(&self) -> (w: WireMessage)
        ensures
            w matches WireMessage::Control(ControlMessage::Typing { from, sid }) && from@ == self.name@
                && sid@ == self.name@,
    {
        WireMessage::Control(ControlMessage::Typing { from: self.name.clone(), sid: self.name.clone() })
    }

    /// Sends what was typed in `room_id`, shown as ours at time `ts`:
    /// nothing for a blank line;
    /// otherwise it is shown as ours, the field is cleared, and where the
    /// session is ready it goes out sealed.
    pub fn send_input_at(&mut self, room_id: &str, ts: i64) -> (cmds: Vec<GuiCmd>)
        requires
            gui_ok(*old(self)),
            old(self).session matches Some(s) ==> (s@.ready && trimmed(old(self).input@).len() > 0 ==> s@.seq
                < u64::MAX),
        ensures
            gui_ok(*final(self)),
            if trimmed(old(self).input@).len() == 0 {
                *final(self) == *old(self) && cmds@.len() == 0
            } else {
                &&& final(self).input@.len() == 0
                &&& final(self).messages@.len() == old(self).messages@.len() + 1
                &&& final(self).messages@.drop_last() == old(self).messages@
                &&& final(self).messages@.last().from@ == old(self).name@
                &&& final(self).messages@.last().text@ == trimmed(old(self).input@)
                &&& final(self).messages@.last().mine
                &&& final(self).messages@.last().ts == ts
                &&& *final(self) == (GuiState {
                    input: final(self).input,
                    messages: final(self).messages,
                    session: final(self).session,
                    ..*old(self)
                })
                &&& match old(self).session {
                    Some(s) => if s@.ready {
                        &&& final(self).session matches Some(s2) && s2@ == (crate::session::SessionState {
                            seq: (s@.seq + 1) as u64,
                            ..s@
                        })
                        &&& cmds@.len() <= 1
                        &&& (cmds@.len() == 1 ==> (cmds@[0] matches GuiCmd::Send(r, WireMessage::Chat(m))
                            && r@ == room_id@ && crate::session::sent_chat(
                            m,
                            s@,
                            s@.key.unwrap(),
                            trimmed(old(self).input@),
                        )))
                        &&& (crate::crypto::within_aead_limits(
                            vstd::utf8::encode_utf8(trimmed(old(self).input@)),
                            crate::crypto::message_aad(s@.room, (s@.seq + 1) as nat),
                        ) ==> cmds@.len() == 1)
                        &&& (!crate::crypto::within_aead_limits(
                            vstd::utf8::encode_utf8(trimmed(old(self).input@)),
                            crate::crypto::message_aad(s@.room, (s@.seq + 1) as nat),
                        ) ==> cmds@.len() == 0)
                    } else {
                        final(self).session == old(self).session && cmds@.len() == 0
                    },
                    None => final(self).session is None && cmds@.len() == 0,
                }
            },
    {
        let text = trim(self.input.as_str());
        let mut cmds: Vec<GuiCmd> = Vec::new();
        if text.as_str().is_empty() {
            return cmds;
        }
        proof {
            if let Some(sess) = &self.session {
                sess.lemma_consistent();
            }
        }
        match &mut self.session {
            Some(session) => {
                if session.is_ready() {
                    match session.encrypt_and_encode(text.as_str()) {
                        Ok(w) => {
                            cmds.push(GuiCmd::Send(room_id.to_owned(), w));
                        },
                        Err(_) => {},
                    }
                }
            },
            None => {},
        }
        let id = new_uuid();
        self.messages.push(ChatEvent { id, from: self.name.clone(), text, ts, mine: true });
        self.input = String::new();
        proof {
            assert(self.messages@.drop_last() =~= old(self).messages@);
        }
        cmds
    }

    /// Sends what was typed in `room_id`: nothing for a blank line;
    /// otherwise it is shown as ours, the field is cleared, and where the
    /// session is ready it goes out sealed.
    pub fn send_input(&mut self, room_id: &str) -> (cmds: Vec<GuiCmd>)
        requires
            gui_ok(*old(self)),
            old(self).session matches Some(s) ==> (s@.ready && trimmed(old(self).input@).len() > 0 ==> s@.seq
                < u64::MAX),
        ensures
            gui_ok(*final(self)),
            if trimmed(old(self).input@).len() == 0 {
                *final(self) == *old(self) && cmds@.len() == 0
            } else {
                &&& final(self).input@.len() == 0
                &&& final(self).messages@.len() == old(self).messages@.len() + 1
                &&& final(self).messages@.drop_last() == old(self).messages@
                &&& final(self).messages@.last().from@ == old(self).name@
                &&& final(self).messages@.last().text@ == trimmed(old(self).input@)
                &&& final(self).messages@.last().mine
                &&& *final(self) == (GuiState {
                    input: final(self).input,
                    messages: final(self).messages,
                    session: final(self).session,
                    ..*old(self)
                })
                &&& match old(self).session {
                    Some(s) => if s@.ready {
                        &&& final(self).session matches Some(s2) && s2@ == (crate::session::SessionState {
                            seq: (s@.seq + 1) as u64,
                            ..s@
                        })
                        &&& cmds@.len() <= 1
                        &&& (cmds@.len() == 1 ==> (cmds@[0] matches GuiCmd::Send(r, WireMessage::Chat(m))
                            && r@ == room_id@ && crate::session::sent_chat(
                            m,
                            s@,
                            s@.key.unwrap(),
                            trimmed(old(self).input@),
                        )))
                        &&& (crate::crypto::within_aead_limits(
                            vstd::utf8::encode_utf8(trimmed(old(self).input@)),
                            crate::crypto::message_aad(s@.room, (s@.seq + 1) as nat),
                        ) ==> cmds@.len() == 1)
                        &&& (!crate::crypto::within_aead_limits(
                            vstd::utf8::encode_utf8(trimmed(old(self).input@)),
                            crate::crypto::message_aad(s@.room, (s@.seq + 1) as nat),
                        ) ==> cmds@.len() == 0)
                    } else {
                        final(self).session == old(self).session && cmds@.len() == 0
                    },
                    None => final(self).session is None && cmds@.len() == 0,
                }
            },
    {
        let ts = now_ms();
        self.send_input_at(room_id, ts)
    }
}

/// Our own messages and notices from "system" never change the connection
/// line: showing one more of them leaves it as it was.
pub proof fn lemma_status_ignores_own_and_system(evs: Seq<EventView>, e: EventView, status: Seq<char>)
    requires
        e.mine || e.from == "system"@,
    ensures
        status_after(evs.push(e), status) == status_after(evs, status),
{
    assert(evs.push(e).drop_last() =~= evs);
}

/// A message from a peer sets the connection line to name that peer.
pub proof fn lemma_status_names_peer(evs: Seq<EventView>, e: EventView, status: Seq<char>)
    requires
        !e.mine,
        e.from != "system"@,
    ensures
        status_after(evs.push(e), status) == "Chatting with "@ + e.from,
{
}

/// Where no event is a peer's message, the connection line is unchanged.
pub proof fn lemma_status_kept_without_peers(evs: Seq<EventView>, status: Seq<char>)
    requires
        forall|k: int| 0 <= k < evs.len() ==> (#[trigger] evs[k]).mine || evs[k].from == "system"@,
    ensures
        status_after(evs, status) == status,
    decreases evs.len(),
{
    if evs.len() > 0 {
        let d = evs.drop_last();
        assert forall|k: int| 0 <= k < d.len() implies (#[trigger] d[k]).mine || d[k].from == "system"@ by {
            assert(d[k] == evs[k]);
        }
        lemma_status_kept_without_peers(d, status);
        assert(evs[evs.len() - 1] == evs.last());
    }
}

} // verus!
