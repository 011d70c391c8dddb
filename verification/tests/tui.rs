use rmsg::crypto::KeyPair;
use rmsg::session::ChatEvent;
use rmsg::tui::{
    chat_header, chat_room_line, input_line, lobby_room_line, message_line, Key, LineTone, LobbyPrompt, TuiCmd,
    TuiMode, TuiState,
};

fn state(rooms: &[&str]) -> TuiState {
    TuiState::new(rooms.iter().map(|r| r.to_string()).collect(), "me".into(), KeyPair::generate())
}

fn ev(from: &str, text: &str, mine: bool) -> ChatEvent {
    ChatEvent { id: "i".into(), from: from.into(), text: text.into(), ts: 0, mine }
}

#[test]
fn lobby_starts_empty() {
    let s = state(&["a"]);
    assert_eq!(s.mode, TuiMode::Lobby);
    assert_eq!(s.status, "\u{25cf} network ready");
    assert!(s.session.is_none());
}

#[test]
fn navigation_moves_and_clamps() {
    let mut s = state(&["a", "b", "c"]);
    s.handle_key(Key::Down);
    assert_eq!(s.selected_room.as_deref(), Some("b"));
    s.handle_key(Key::Char('j'));
    assert_eq!(s.selected_room.as_deref(), Some("c"));
    s.handle_key(Key::Down);
    assert_eq!(s.selected_room.as_deref(), Some("c"));
    s.handle_key(Key::Up);
    assert_eq!(s.selected_room.as_deref(), Some("b"));
    s.handle_key(Key::Char('k'));
    s.handle_key(Key::Char('k'));
    assert_eq!(s.selected_room.as_deref(), Some("a"));
}

#[test]
fn navigation_in_empty_lobby_does_nothing() {
    let mut s = state(&[]);
    assert!(s.handle_key(Key::Down).is_empty());
    assert!(s.selected_room.is_none());
}

#[test]
fn enter_opens_selected_room() {
    let mut s = state(&["a", "b"]);
    s.handle_key(Key::Down);
    let cmds = s.handle_key(Key::Enter);
    assert_eq!(cmds.len(), 1);
    match &cmds[0] {
        TuiCmd::Join(r) => assert_eq!(r, "b"),
        _ => panic!(),
    }
    assert_eq!(s.mode, TuiMode::Chat);
    assert_eq!(s.current_room.as_deref(), Some("b"));
    assert_eq!(s.rooms.len(), 2);
    assert_eq!(s.session.as_ref().unwrap().room_id(), "b");
}

#[test]
fn new_room_is_listed() {
    let mut s = state(&["a"]);
    let cmds = s.handle_key(Key::Char('n'));
    let room = match &cmds[0] {
        TuiCmd::Join(r) => r.clone(),
        _ => panic!(),
    };
    assert!(room.starts_with("room-"));
    assert_eq!(room.len(), 13);
    assert_eq!(s.rooms, vec!["a".to_string(), room.clone()]);
    assert_eq!(s.selected_room, Some(room));
}

#[test]
fn typing_and_sending_before_handshake() {
    let mut s = state(&["a"]);
    s.enter_room("a");
    for c in "  hi ".chars() {
        s.handle_key(Key::Char(c));
    }
    s.handle_key(Key::Backspace);
    assert_eq!(s.input, "  hi");
    let cmds = s.handle_key(Key::Enter);
    assert!(cmds.is_empty());
    assert_eq!(s.input, "");
    assert_eq!(s.messages.len(), 1);
    assert_eq!(s.messages[0].text, "hi");
    assert!(s.messages[0].mine);
    assert_eq!(s.messages[0].from, "me");
}

#[test]
fn blank_line_is_not_sent() {
    let mut s = state(&["a"]);
    s.enter_room("a");
    s.handle_key(Key::Char(' '));
    assert!(s.handle_key(Key::Enter).is_empty());
    assert_eq!(s.input, " ");
    assert!(s.messages.is_empty());
}

#[test]
fn sending_when_ready_publishes() {
    let mut s = state(&["a"]);
    s.enter_room("a");
    let peer = KeyPair::generate();
    s.session.as_mut().unwrap().set_peer_pk(&peer.pk).unwrap();
    s.handle_key(Key::Char('y'));
    let cmds = s.handle_key(Key::Enter);
    assert_eq!(cmds.len(), 1);
    match &cmds[0] {
        TuiCmd::Send(r, _) => assert_eq!(r, "a"),
        _ => panic!(),
    }
}

#[test]
fn escape_and_quit() {
    let mut s = state(&["a"]);
    s.enter_room("a");
    s.push_message(ev("x", "t", false));
    s.handle_key(Key::Esc);
    assert_eq!(s.mode, TuiMode::Lobby);
    assert!(s.session.is_none() && s.current_room.is_none() && s.messages.is_empty());
    s.handle_key(Key::Char('z'));
    assert_eq!(s.room_input, "");
    s.handle_key(Key::Char('q'));
    assert_eq!(s.mode, TuiMode::Quit);
    assert!(s.handle_key(Key::Char('n')).is_empty());
    assert!(s.handle_key(Key::Char('1')).is_empty());
    assert_eq!(s.mode, TuiMode::Quit);
}

#[test]
fn menu_one_creates_a_room() {
    let mut s = state(&["a"]);
    let cmds = s.handle_key(Key::Char('1'));
    assert_eq!(cmds.len(), 1);
    let room = match &cmds[0] {
        TuiCmd::Join(r) => r.clone(),
        _ => panic!(),
    };
    assert!(room.starts_with("room-"));
    assert_eq!(s.mode, TuiMode::Chat);
    assert_eq!(s.current_room, Some(room.clone()));
    assert_eq!(s.rooms, vec!["a".to_string(), room]);
}

#[test]
fn menu_two_joins_a_typed_room() {
    let mut s = state(&[]);
    assert!(s.handle_key(Key::Char('2')).is_empty());
    assert_eq!(s.prompt, LobbyPrompt::RoomId);
    for c in " room-1a2b3c4x".chars() {
        s.handle_key(Key::Char(c));
    }
    s.handle_key(Key::Backspace);
    assert_eq!(s.room_input, " room-1a2b3c4");
    let cmds = s.handle_key(Key::Enter);
    assert_eq!(cmds.len(), 1);
    match &cmds[0] {
        TuiCmd::Join(r) => assert_eq!(r, "room-1a2b3c4"),
        _ => panic!(),
    }
    assert_eq!(s.mode, TuiMode::Chat);
    assert_eq!(s.prompt, LobbyPrompt::Menu);
    assert_eq!(s.room_input, "");
    assert_eq!(s.current_room.as_deref(), Some("room-1a2b3c4"));
    assert_eq!(s.rooms, vec!["room-1a2b3c4".to_string()]);
}

#[test]
fn menu_three_dials_a_typed_address() {
    let mut s = state(&["a"]);
    s.handle_key(Key::Char('3'));
    assert_eq!(s.prompt, LobbyPrompt::Address);
    for c in "/ip4/1.2.3.4/tcp/4001".chars() {
        s.handle_key(Key::Char(c));
    }
    let cmds = s.handle_key(Key::Enter);
    assert_eq!(cmds.len(), 1);
    match &cmds[0] {
        TuiCmd::Dial(a) => assert_eq!(a, "/ip4/1.2.3.4/tcp/4001"),
        _ => panic!(),
    }
    assert_eq!(s.mode, TuiMode::Lobby);
    assert_eq!(s.prompt, LobbyPrompt::Menu);
    assert_eq!(s.room_input, "");
    assert!(s.session.is_none());
}

#[test]
fn menu_four_opens_the_selected_room() {
    let mut s = state(&["a", "b"]);
    assert!(s.handle_key(Key::Char('4')).is_empty());
    assert_eq!(s.mode, TuiMode::Lobby);
    s.handle_key(Key::Down);
    let cmds = s.handle_key(Key::Char('4'));
    match &cmds[0] {
        TuiCmd::Join(r) => assert_eq!(r, "b"),
        _ => panic!(),
    }
    assert_eq!(s.mode, TuiMode::Chat);
}

#[test]
fn prompt_escape_and_blank_entry_return_to_menu() {
    let mut s = state(&[]);
    s.handle_key(Key::Char('2'));
    s.handle_key(Key::Char('x'));
    assert!(s.handle_key(Key::Esc).is_empty());
    assert_eq!(s.prompt, LobbyPrompt::Menu);
    assert_eq!(s.room_input, "");
    s.handle_key(Key::Char('3'));
    s.handle_key(Key::Char(' '));
    assert!(s.handle_key(Key::Enter).is_empty());
    assert_eq!(s.prompt, LobbyPrompt::Menu);
    assert_eq!(s.mode, TuiMode::Lobby);
    // 'q' typed in a prompt is text, not quit
    s.handle_key(Key::Char('2'));
    s.handle_key(Key::Char('q'));
    assert_eq!(s.room_input, "q");
    assert_eq!(s.mode, TuiMode::Lobby);
}

#[test]
fn message_pane_keeps_last_500() {
    let mut s = state(&[]);
    for i in 0..501 {
        s.push_message(ev("x", &i.to_string(), false));
    }
    assert_eq!(s.messages.len(), 500);
    assert_eq!(s.messages[0].text, "1");
}

#[test]
fn peer_status_counts() {
    let mut s = state(&[]);
    s.on_peer_discovered();
    s.on_peer_discovered();
    assert_eq!(s.peers, 2);
    assert_eq!(s.status, "\u{25cf} 2 peer(s)");
}

#[test]
fn subscription_sends_handshake_and_request() {
    let mut s = state(&[]);
    assert!(s.on_subscribed(None).is_empty());
    s.enter_room("r");
    let cmds = s.on_subscribed(Some(5));
    assert_eq!(cmds.len(), 2);
}

#[test]
fn lines() {
    assert_eq!(message_line(&ev("x", "hi", true)), ("  > hi".to_string(), LineTone::Mine));
    assert_eq!(message_line(&ev("system", "hi", false)), ("  -- hi --".to_string(), LineTone::System));
    assert_eq!(message_line(&ev("bob", "hi", false)), ("  [bob] hi".to_string(), LineTone::Peer));
    assert_eq!(lobby_room_line("r", true), "\u{25ba} r");
    assert_eq!(lobby_room_line("r", false), "  r");
    assert_eq!(chat_room_line("r", true), "\u{25cf} r");
    assert_eq!(chat_header(Some("r")), " r \u{2014} esc to leave");
    assert_eq!(chat_header(None), " ? \u{2014} esc to leave");
    assert_eq!(input_line("abc"), "> abc");
}
