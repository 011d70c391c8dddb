//! The terminal interface's state and what each key and network event does
//! to it. Drawing and reading keys are the terminal's work.

use vstd::prelude::*;

use crate::cli::new_room_id;
use crate::crypto::KeyPair;
use crate::digits::{decimal_digits, push_decimal};
use crate::display::now_ms;
use crate::encoding::{base64_encoding, string_from_chars, string_pop, string_push, trim, trimmed};
use crate::entropy::new_uuid;
use crate::protocol::{ControlMessage, WireMessage};
use crate::session::{ChatEvent, ChatSession, EventView};

verus! {

/// Where the interface is.
#[derive(Debug, Clone, Copy, PartialEq, Eq, Structural)]
pub enum TuiMode {
    Lobby,
    Chat,
    Quit,
}

/// A key press, as far as the interface tells keys apart.
#[derive(Debug, Clone, Copy, PartialEq, Eq, Structural)]
pub enum Key {
    Char(char),
    Up,
    Down,
    Enter,
    Esc,
    Backspace,
    Other,
}

/// What the lobby reads keys as: menu choices, or the characters of a
/// room id or of a relay or peer address typed into its field.
#[derive(Debug, Clone, Copy, PartialEq, Eq, Structural)]
pub enum LobbyPrompt {
    Menu,
    RoomId,
    Address,
}

/// Work for the network layer.
#[derive(Debug)]
pub enum TuiCmd {
    /// Join a room's topic.
    Join(String),
    /// Publish a message in a room.
    Send(String, WireMessage),
    /// Dial a relay or peer address.
    Dial(String),
}

/// The interface's state.
pub struct TuiState {
    pub rooms: Vec<String>,
    pub selected_room: Option<String>,
    pub messages: Vec<ChatEvent>,
    pub input: String,
    pub current_room: Option<String>,
    pub session: Option<ChatSession>,
    pub name: String,
    pub kp: KeyPair,
    pub status: String,
    pub peers: usize,
    pub room_input: String,
    pub mode: TuiMode,
    pub prompt: LobbyPrompt,
}

/// How many messages the chat pane keeps.
pub open spec fn message_cap() -> nat {
    500
}

pub open spec fn names_view(v: Seq<String>) -> Seq<Seq<char>> {
    v.map_values(|s: String| s@)
}

pub open spec fn opt_view(o: Option<String>) -> Option<Seq<char>> {
    match o {
        Some(s) => Some(s@),
        None => None,
    }
}

/// Where `x` first occurs in `s`, or `s.len()` where it does not.
pub open spec fn first_index(s: Seq<Seq<char>>, x: Seq<char>) -> nat
    decreases s.len(),
{
    if s.len() == 0 {
        0
    } else if s[0] == x {
        0
    } else {
        1 + first_index(s.drop_first(), x)
    }
}

/// The index of the selected room in the list, 0 where none is selected
/// or it is not listed.
pub open spec fn selected_index(rooms: Seq<Seq<char>>, sel: Option<Seq<char>>) -> nat {
    match sel {
        Some(x) => if first_index(rooms, x) < rooms.len() {
            first_index(rooms, x)
        } else {
            0
        },
        None => 0,
    }
}

/// The session state is usable for sending.
pub open spec fn session_ok(s: Option<ChatSession>) -> bool {
    s matches Some(c) ==> c.wf()
}

/// The chat pane after showing `e`: the oldest message goes once more
/// than the cap are shown.
pub open spec fn shown_after(msgs: Seq<EventView>, e: EventView) -> Seq<EventView> {
    if msgs.len() + 1 > message_cap() {
        msgs.push(e).drop_first()
    } else {
        msgs.push(e)
    }
}

pub open spec fn msgs_view(v: Seq<ChatEvent>) -> Seq<EventView> {
    v.map_values(|e: ChatEvent| e@)
}

/// The status line for `n` peers.
pub open spec fn peers_status(n: nat) -> Seq<char> {
    "\u{25cf} "@ + decimal_digits(n) + " peer(s)"@
}

/// `new` is `old` with room `room` opened: a fresh session of our name and
/// identity, the room listed and selected, the chat pane empty.
pub open spec fn entered(old: TuiState, new: TuiState, room: Seq<char>) -> bool {
    &&& new.session matches Some(s) && s.wf() && s@.room == room && s@.user == old.name@
        && s@.secret == old.kp.sk@ && s@.public == crate::crypto::x25519_public(old.kp.sk@) && s@.seq == 0 && !s@.ready
        && s@.seen.len() == 0 && s@.taken.len() == 0
    &&& new.messages@.len() == 0
    &&& opt_view(new.current_room) == Some(room)
    &&& opt_view(new.selected_room) == Some(room)
    &&& names_view(new.rooms@) == if names_view(old.rooms@).contains(room) {
        names_view(old.rooms@)
    } else {
        names_view(old.rooms@).push(room)
    }
    &&& new.mode == TuiMode::Chat
    &&& new == TuiState {
        session: new.session,
        messages: new.messages,
        current_room: new.current_room,
        selected_room: new.selected_room,
        rooms: new.rooms,
        mode: new.mode,
        ..old
    }
}

/// The two messages sent when our topic gains a subscriber: our public
/// key, then a request for the messages after `last_ts` (0 where none).
pub open spec fn subscribed_sends(first: TuiCmd, second: TuiCmd, s: crate::session::SessionState, last_ts: Option<i64>) -> bool {
    &&& first matches TuiCmd::Send(r, WireMessage::Control(ControlMessage::PublicKey { from, pk, sid }))
        && r@ == s.room && from@ == s.user && sid@ == s.user && pk@ == base64_encoding(s.public)
    &&& second matches TuiCmd::Send(r, WireMessage::Control(ControlMessage::WantSince { from, since, sid }))
        && r@ == s.room && from@ == s.user && sid@ == s.user && since == match last_ts {
        Some(t) => t,
        None => 0,
    }
}

/// A line after a backspace.
pub open spec fn backspaced(s: Seq<char>) -> Seq<char> {
    if s.len() == 0 {
        s
    } else {
        s.drop_last()
    }
}

/// The room messages are sent to: the current room, or "" where there is none.
pub open spec fn send_room(cur: Option<String>) -> Seq<char> {
    match cur {
        Some(r) => r@,
        None => Seq::empty(),
    }
}

/// Pressing `key` seals a chat line: Enter in a room, on a line that is not
/// blank, with a ready session.
pub open spec fn sends_chat(st: TuiState, key: Key) -> bool {
    &&& st.mode == TuiMode::Chat
    &&& key == Key::Enter
    &&& trimmed(st.input@).len() > 0
    &&& st.session matches Some(s) && s@.ready
}

/// What pressing `key` does: `old` becomes `new` and `cmds` go to the
/// network. The lobby is a menu: `1` (or `n`) creates a room, `2` and `3`
/// read a room id or an address into the field until Enter joins or dials
/// it (Esc goes back), `4` (or Enter) opens the selected room, `j`/`k`
/// move and `q` quits. In a room, keys edit the line, Enter sends it and
/// Esc leaves.
pub open spec fn key_effect(old: TuiState, new: TuiState, key: Key, cmds: Seq<TuiCmd>) -> bool {
    match old.mode {
        TuiMode::Quit => new == old && cmds.len() == 0,
        TuiMode::Lobby => match old.prompt {
            LobbyPrompt::Menu => match key {
                Key::Char('q') => new == TuiState { mode: TuiMode::Quit, ..old } && cmds.len() == 0,
                Key::Char('1') | Key::Char('n') => cmds.len() == 1 && (cmds[0] matches TuiCmd::Join(r)
                    && r@.len() == 13 && r@.subrange(0, 5) == "room-"@ && entered(old, new, r@)),
                Key::Char('2') => cmds.len() == 0 && new.room_input@.len() == 0 && new == TuiState {
                    prompt: LobbyPrompt::RoomId,
                    room_input: new.room_input,
                    ..old
                },
                Key::Char('3') => cmds.len() == 0 && new.room_input@.len() == 0 && new == TuiState {
                    prompt: LobbyPrompt::Address,
                    room_input: new.room_input,
                    ..old
                },
                Key::Char('j') | Key::Down => cmds.len() == 0 && if old.rooms@.len() == 0 {
                    new == old
                } else {
                    let idx = selected_index(names_view(old.rooms@), opt_view(old.selected_room));
                    let next = if idx + 1 < old.rooms@.len() { idx + 1 } else { (old.rooms@.len() - 1) as nat };
                    new == TuiState { selected_room: Some(old.rooms@[next as int]), ..old }
                },
                Key::Char('k') | Key::Up => cmds.len() == 0 && if old.rooms@.len() == 0 {
                    new == old
                } else {
                    let idx = selected_index(names_view(old.rooms@), opt_view(old.selected_room));
                    let next = if idx == 0 { 0 } else { (idx - 1) as nat };
                    new == TuiState { selected_room: Some(old.rooms@[next as int]), ..old }
                },
                Key::Char('4') | Key::Enter => match old.selected_room {
                    Some(r) => cmds.len() == 1 && (cmds[0] matches TuiCmd::Join(j) && j@ == r@) && entered(old, new, r@),
                    None => new == old && cmds.len() == 0,
                },
                _ => new == old && cmds.len() == 0,
            },
            _ => match key {
                Key::Char(c) => cmds.len() == 0 && new.room_input@ == old.room_input@.push(c)
                    && new == TuiState { room_input: new.room_input, ..old },
                Key::Backspace => cmds.len() == 0 && new.room_input@ == backspaced(old.room_input@)
                    && new == TuiState { room_input: new.room_input, ..old },
                Key::Esc => cmds.len() == 0 && new.room_input@.len() == 0 && new == TuiState {
                    prompt: LobbyPrompt::Menu,
                    room_input: new.room_input,
                    ..old
                },
                Key::Enter => {
                    let t = trimmed(old.room_input@);
                    let back = TuiState { prompt: LobbyPrompt::Menu, room_input: new.room_input, ..old };
                    &&& new.room_input@.len() == 0
                    &&& if t.len() == 0 {
                        new == back && cmds.len() == 0
                    } else if old.prompt == LobbyPrompt::RoomId {
                        cmds.len() == 1 && (cmds[0] matches TuiCmd::Join(r) && r@ == t) && entered(back, new, t)
                    } else {
                        cmds.len() == 1 && (cmds[0] matches TuiCmd::Dial(a) && a@ == t) && new == back
                    }
                },
                _ => new == old && cmds.len() == 0,
            },
        },
        TuiMode::Chat => match key {
            Key::Esc => cmds.len() == 0 && new.session is None && new.current_room is None
                && new.messages@.len() == 0 && new == TuiState {
                mode: TuiMode::Lobby,
                session: new.session,
                current_room: new.current_room,
                messages: new.messages,
                ..old
            },
            Key::Enter => {
                let t = trimmed(old.input@);
                if t.len() == 0 {
                    new == old && cmds.len() == 0
                } else {
                    &&& new.input@.len() == 0
                    &&& new.messages@.len() == old.messages@.len() + 1
                    &&& new.messages@.drop_last() == old.messages@
                    &&& new.messages@.last().from@ == old.name@
                    &&& new.messages@.last().text@ == t
                    &&& new.messages@.last().mine
                    &&& new == TuiState {
                        input: new.input,
                        messages: new.messages,
                        session: new.session,
                        ..old
                    }
                    &&& match old.session {
                        Some(s) => if s@.ready {
                            &&& new.session matches Some(s2) && s2.wf() && s2@ == (
                            crate::session::SessionState { seq: (s@.seq + 1) as u64, ..s@ })
                            &&& cmds.len() <= 1
                            &&& (cmds.len() == 1 ==> (cmds[0] matches TuiCmd::Send(r, WireMessage::Chat(m))
                                && r@ == send_room(old.current_room) && crate::session::sent_chat(
                                m,
                                s@,
                                s@.key.unwrap(),
                                t,
                            )))
                            &&& (crate::crypto::within_aead_limits(
                                vstd::utf8::encode_utf8(t),
                                crate::crypto::message_aad(s@.room, (s@.seq + 1) as nat),
                            ) ==> cmds.len() == 1)
                            &&& (!crate::crypto::within_aead_limits(
                                vstd::utf8::encode_utf8(t),
                                crate::crypto::message_aad(s@.room, (s@.seq + 1) as nat),
                            ) ==> cmds.len() == 0)
                        } else {
                            new.session == old.session && cmds.len() == 0
                        },
                        None => new.session is None && cmds.len() == 0,
                    }
                }
            },
            Key::Char(c) => cmds.len() == 0 && new.input@ == old.input@.push(c)
                && new == TuiState { input: new.input, ..old },
            Key::Backspace => cmds.len() == 0 && new.input@ == backspaced(old.input@)
                && new == TuiState { input: new.input, ..old },
            _ => new == old && cmds.len() == 0,
        },
    }
}

fn first_index_of(rooms: &Vec<String>, x: &String) -> (i: usize)
    ensures
        i == first_index(names_view(rooms@), x@),
{
    let mut i: usize = 0;
    assert(names_view(rooms@).skip(0) =~= names_view(rooms@));
    while i < rooms.len()
        invariant
            i <= rooms@.len(),
            first_index(names_view(rooms@), x@) == i + first_index(names_view(rooms@).skip(i as int), x@),
        decreases rooms@.len() - i,
    {
        let ghost rest = names_view(rooms@).skip(i as int);
        assert(rest[0] == rooms@[i as int]@);
        if rooms[i] == *x {
            return i;
        }
        assert(rest.drop_first() =~= names_view(rooms@).skip(i + 1));
        i = i + 1;
    }
    assert(names_view(rooms@).skip(i as int).len() == 0);
    i
}

impl TuiState {
    /// The lobby, listing the rooms kept on this device.
    pub fn new(rooms: Vec<String>, name: String, kp: KeyPair) -> (s: Self)
        ensures
            s.rooms@ == rooms@,
            s.selected_room is None,
            s.messages@.len() == 0,
            s.input@ == Seq::<char>::empty(),
            s.current_room is None,
            s.session is None,
            s.name@ == name@,
            s.kp == kp,
            s.status@ == "\u{25cf} network ready"@,
            s.peers == 0,
            s.room_input@ == Seq::<char>::empty(),
            s.mode == TuiMode::Lobby,
            s.prompt == LobbyPrompt::Menu,
    {
        TuiState {
            rooms,
            selected_room: None,
            messages: Vec::new(),
            input: String::new(),
            current_room: None,
            session: None,
            name,
            kp,
            status: String::from_str("\u{25cf} network ready"),
            peers: 0,
            room_input: String::new(),
            mode: TuiMode::Lobby,
            prompt: LobbyPrompt::Menu,
        }
    }

    /// Opens `room_id`: a fresh session with our identity, the room listed
    /// and selected, the chat pane empty. Gives the command to join it.
    pub fn enter_room(&mut self, room_id: &str) -> (cmd: TuiCmd)
        ensures
            entered(*old(self), *final(self), room_id@),
            cmd matches TuiCmd::Join(r) && r@ == room_id@,
    {
        let kp = KeyPair::from_bytes(&self.kp.to_bytes());
        let session = ChatSession::new(room_id.to_owned(), self.name.clone(), kp);
        self.session = Some(session);
        self.messages = Vec::new();
        self.current_room = Some(room_id.to_owned());
        self.selected_room = Some(room_id.to_owned());
        let r = room_id.to_owned();
        let pos = first_index_of(&self.rooms, &r);
        proof {
            lemma_first_index_contains(names_view(self.rooms@), r@);
        }
        if pos >= self.rooms.len() {
            let ghost before = names_view(self.rooms@);
            self.rooms.push(r);
            assert(names_view(self.rooms@) =~= before.push(room_id@));
        }
        self.mode = TuiMode::Chat;
        TuiCmd::Join(room_id.to_owned())
    }

    /// Shows a message in the chat pane.
    pub fn push_message(&mut self, e: ChatEvent)
        ensures
            msgs_view(final(self).messages@) == shown_after(msgs_view(old(self).messages@), e@),
            *final(self) == (TuiState { messages: final(self).messages, ..*old(self) }),
    {
        let ghost before = msgs_view(self.messages@);
        self.messages.push(e);
        assert(msgs_view(self.messages@) =~= before.push(e@));
        if self.messages.len() > 500 {
            let _ = self.messages.remove(0);
            assert(msgs_view(self.messages@) =~= before.push(e@).drop_first());
        }
    }

    /// A peer was found: one more peer on the status line.
    pub fn on_peer_discovered(&mut self)
        requires
            old(self).peers < usize::MAX,
        ensures
            final(self).peers == old(self).peers + 1,
            final(self).status@ == peers_status(final(self).peers as nat),
            *final(self) == (TuiState { peers: final(self).peers, status: final(self).status, ..*old(self) }),
    {
        self.peers = self.peers + 1;
        let mut out: Vec<char> = Vec::new();
        out.push('\u{25cf}');
        out.push(' ');
        push_decimal(self.peers as u64, &mut out);
        let tail = String::from_str(" peer(s)");
        let s = string_from_chars(&out).concat(tail.as_str());
        proof {
            reveal_strlit("\u{25cf} ");
            reveal_strlit(" peer(s)");
            assert(s@ =~= peers_status(self.peers as nat));
        }
        self.status = s;
    }

    /// Our topic has a subscriber: in a room, send our public key and ask
    /// for what we missed since `last_ts` (the newest message we keep).
    pub fn on_subscribed(&self, last_ts: Option<i64>) -> (cmds: Vec<TuiCmd>)
        ensures
            match self.session {
                Some(s) => cmds@.len() == 2 && subscribed_sends(cmds@[0], cmds@[1], s@, last_ts),
                None => cmds@.len() == 0,
            },
    {
        let mut cmds: Vec<TuiCmd> = Vec::new();
        match &self.session {
            Some(s) => {
                cmds.push(TuiCmd::Send(s.room_id().to_owned(), s.mk_handshake()));
                cmds.push(TuiCmd::Send(s.room_id().to_owned(), s.build_want_since(last_ts)));
            },
            None => {},
        }
        cmds
    }
}

impl TuiState {
    fn move_selection(&mut self, down: bool)
        requires
            old(self).rooms@.len() > 0,
        ensures
            ({
                let idx = selected_index(names_view(old(self).rooms@), opt_view(old(self).selected_room));
                let next = if down {
                    if idx + 1 < old(self).rooms@.len() { idx + 1 } else { (old(self).rooms@.len() - 1) as nat }
                } else {
                    if idx == 0 { 0 } else { (idx - 1) as nat }
                };
                *final(self) == TuiState { selected_room: Some(old(self).rooms@[next as int]), ..*old(self) }
            }),
    {
        let idx = match &self.selected_room {
            Some(sel) => {
                let p = first_index_of(&self.rooms, sel);
                proof {
                    lemma_first_index_contains(names_view(self.rooms@), sel@);
                }
                if p < self.rooms.len() { p } else { 0 }
            },
            None => 0,
        };
        let next = if down {
            if idx + 1 < self.rooms.len() { idx + 1 } else { self.rooms.len() - 1 }
        } else {
            if idx == 0 { 0 } else { idx - 1 }
        };
        let r = self.rooms[next].clone();
        self.selected_room = Some(r);
    }

    fn send_line(&mut self) -> (cmds: Vec<TuiCmd>)
        requires
            old(self).mode == TuiMode::Chat,
            session_ok(old(self).session),
            old(self).session matches Some(s) ==> (sends_chat(*old(self), Key::Enter) ==> s@.seq < u64::MAX),
        ensures
            session_ok(final(self).session),
            key_effect(*old(self), *final(self), Key::Enter, cmds@),
    {
        let text = trim(self.input.as_str());
        let mut cmds: Vec<TuiCmd> = Vec::new();
        if text.as_str().is_empty() {
            return cmds;
        }
        let room = match &self.current_room {
            Some(r) => r.clone(),
            None => String::new(),
        };
        proof {
            if let Some(sess) = &self.session {
                sess.lemma_consistent();
            }
        }
        match &mut self.session {
            Some(session) => {
                if session.is_ready() {
                    match session.encrypt_and_encode(text.as_str()) {
                        Ok(w) => {
                            cmds.push(TuiCmd::Send(room, w));
                        },
                        Err(_) => {},
                    }
                }
            },
            None => {},
        }
        let id = new_uuid();
        let ts = now_ms();
        self.messages.push(ChatEvent { id, from: self.name.clone(), text, ts, mine: true });
        self.input = String::new();
        proof {
            assert(self.messages@.drop_last() =~= old(self).messages@);
        }
        cmds
    }

    /// Takes a key press; gives the work for the network.
    pub fn handle_key(&mut self, key: Key) -> (cmds: Vec<TuiCmd>)
        requires
            session_ok(old(self).session),
            old(self).session matches Some(s) ==> (sends_chat(*old(self), key) ==> s@.seq < u64::MAX),
        ensures
            session_ok(final(self).session),
            key_effect(*old(self), *final(self), key, cmds@),
    {
        let mut cmds: Vec<TuiCmd> = Vec::new();
        match self.mode {
            TuiMode::Lobby => match self.prompt {
                LobbyPrompt::Menu => match key {
                    Key::Char('q') => {
                        self.mode = TuiMode::Quit;
                    },
                    Key::Char('1') | Key::Char('n') => {
                        let room_id = new_room_id();
                        let cmd = self.enter_room(room_id.as_str());
                        cmds.push(cmd);
                    },
                    Key::Char('2') => {
                        self.prompt = LobbyPrompt::RoomId;
                        self.room_input = String::new();
                    },
                    Key::Char('3') => {
                        self.prompt = LobbyPrompt::Address;
                        self.room_input = String::new();
                    },
                    Key::Char('j') | Key::Down => {
                        if self.rooms.len() > 0 {
                            self.move_selection(true);
                        }
                    },
                    Key::Char('k') | Key::Up => {
                        if self.rooms.len() > 0 {
                            self.move_selection(false);
                        }
                    },
                    Key::Char('4') | Key::Enter => {
                        match &self.selected_room {
                            Some(r) => {
                                let rid = r.clone();
                                let cmd = self.enter_room(rid.as_str());
                                cmds.push(cmd);
                            },
                            None => {},
                        }
                    },
                    _ => {},
                },
                _ => match key {
                    Key::Char(c) => {
                        string_push(&mut self.room_input, c);
                    },
                    Key::Backspace => {
                        let _ = string_pop(&mut self.room_input);
                    },
                    Key::Esc => {
                        self.prompt = LobbyPrompt::Menu;
                        self.room_input = String::new();
                    },
                    Key::Enter => {
                        let t = trim(self.room_input.as_str());
                        let p = self.prompt;
                        self.prompt = LobbyPrompt::Menu;
                        self.room_input = String::new();
                        if !t.as_str().is_empty() {
                            if p == LobbyPrompt::RoomId {
                                let cmd = self.enter_room(t.as_str());
                                cmds.push(cmd);
                            } else {
                                cmds.push(TuiCmd::Dial(t));
                            }
                        }
                    },
                    _ => {},
                },
            },
            TuiMode::Chat => match key {
                Key::Esc => {
                    self.mode = TuiMode::Lobby;
                    self.session = None;
                    self.current_room = None;
                    self.messages = Vec::new();
                },
                Key::Enter => {
                    return self.send_line();
                },
                Key::Char(c) => {
                    string_push(&mut self.input, c);
                },
                Key::Backspace => {
                    let _ = string_pop(&mut self.input);
                },
                _ => {},
            },
            TuiMode::Quit => {},
        }
        cmds
    }
}

/// How a chat line is coloured.
#[derive(Debug, Clone, Copy, PartialEq, Eq, Structural)]
pub enum LineTone {
    Mine,
    System,
    Peer,
}

/// The chat pane's line for an event.
pub open spec fn message_line_text(e: EventView) -> Seq<char> {
    if e.mine {
        "  > "@ + e.text
    } else if e.from == "system"@ {
        "  -- "@ + e.text + " --"@
    } else {
        "  ["@ + e.from + "] "@ + e.text
    }
}

pub open spec fn message_line_tone(e: EventView) -> LineTone {
    if e.mine {
        LineTone::Mine
    } else if e.from == "system"@ {
        LineTone::System
    } else {
        LineTone::Peer
    }
}

/// The chat pane's line for an event, and its colour.
pub fn message_line(e: &ChatEvent) -> (r: (String, LineTone))
    ensures
        r.0@ == message_line_text(e@),
        r.1 == message_line_tone(e@),
{
    if e.mine {
        (String::from_str("  > ").concat(e.text.as_str()), LineTone::Mine)
    } else if e.from == String::from_str("system") {
        (String::from_str("  -- ").concat(e.text.as_str()).concat(" --"), LineTone::System)
    } else {
        (String::from_str("  [").concat(e.from.as_str()).concat("] ").concat(e.text.as_str()), LineTone::Peer)
    }
}

/// A room in the lobby's list, marked where it is selected.
pub fn lobby_room_line(room: &str, selected: bool) -> (l: String)
    ensures
        l@ == (if selected { "\u{25ba} "@ } else { "  "@ }) + room@,
{
    if selected {
        String::from_str("\u{25ba} ").concat(room)
    } else {
        String::from_str("  ").concat(room)
    }
}

/// A room in the chat screen's list, marked where it is open.
pub fn chat_room_line(room: &str, active: bool) -> (l: String)
    ensures
        l@ == (if active { "\u{25cf} "@ } else { "  "@ }) + room@,
{
    if active {
        String::from_str("\u{25cf} ").concat(room)
    } else {
        String::from_str("  ").concat(room)
    }
}

/// The chat pane's title for the open room ("?" where none is open).
pub fn chat_header(room: Option<&str>) -> (h: String)
    ensures
        h@ == " "@ + (match room {
            Some(r) => r@,
            None => "?"@,
        }) + " \u{2014} esc to leave"@,
{
    let r = match room {
        Some(r) => r,
        None => "?",
    };
    String::from_str(" ").concat(r).concat(" \u{2014} esc to leave")
}

/// The input line.
pub fn input_line(input: &str) -> (l: String)
    ensures
        l@ == "> "@ + input@,
{
    String::from_str("> ").concat(input)
}

/// A name that first occurs past the end is not in the sequence.
proof fn lemma_first_index_contains(s: Seq<Seq<char>>, x: Seq<char>)
    ensures
        first_index(s, x) <= s.len(),
        first_index(s, x) < s.len() <==> s.contains(x),
        first_index(s, x) < s.len() ==> s[first_index(s, x) as int] == x,
    decreases s.len(),
{
    if s.len() > 0 && s[0] != x {
        lemma_first_index_contains(s.drop_first(), x);
        if s.contains(x) {
            let j = choose|j: int| 0 <= j < s.len() && s[j] == x;
            assert(s.drop_first()[j - 1] == x);
        }
        if s.drop_first().contains(x) {
            let j = choose|j: int| 0 <= j < s.drop_first().len() && s.drop_first()[j] == x;
            assert(s[j + 1] == x);
        }
    } else if s.len() > 0 {
        assert(s[0] == x);
    }
}

/// The chat pane never holds more than the cap, and the newest message is
/// always the last shown.
pub proof fn lemma_message_cap(msgs: Seq<EventView>, e: EventView)
    requires
        msgs.len() <= message_cap(),
    ensures
        shown_after(msgs, e).len() <= message_cap(),
        shown_after(msgs, e).last() == e,
{
}

} // verus!
