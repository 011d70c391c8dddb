use rmsg::crypto::KeyPair;
use rmsg::gui::{connected_label, contains_text, network_label, GuiCmd, GuiState, Screen, StatusTone};
use rmsg::protocol::{ControlMessage, WireMessage};
use rmsg::session::ChatSession;

fn gui() -> GuiState {
    let mut g = GuiState::new(vec!["r1".into()], KeyPair::generate());
    g.name = "me".into();
    g
}

#[test]
fn labels() {
    assert_eq!(connected_label(1), "Connected (1 peer)");
    assert_eq!(connected_label(2), "Connected (2 peers)");
    assert_eq!(network_label(0), "\u{25cb} network (0 peers)");
    assert_eq!(network_label(1), "\u{25cf} network (1 peer)");
    assert!(contains_text("Chatting with bob", "Chatting"));
    assert!(!contains_text("Chat", "Chatting"));
    assert!(contains_text("abc", ""));
}

#[test]
fn entering_a_room() {
    let mut g = gui();
    let cmd = g.enter_room("room-1");
    assert!(matches!(cmd, GuiCmd::JoinRoom(ref r) if r == "room-1"));
    assert!(matches!(g.screen, Screen::ChatRoom(ref r) if r == "room-1"));
    assert!(g.send_hs);
    assert_eq!(g.connection_status, "Waiting for peer...");
    assert_eq!(g.pending_clipboard.as_deref(), Some("room-1"));
    assert_eq!(g.messages.len(), 1);
    assert_eq!(g.messages[0].from, "system");
    assert_eq!(g.messages[0].text, "Room: room-1 \u{2014} copied to clipboard. Share with your peer.");
    assert_eq!(g.heading("room-1"), "room-1");
    let (tone, text) = g.status_line();
    assert_eq!(tone, StatusTone::Waiting);
    assert_eq!(text, "Waiting for peer...");
}

#[test]
fn creating_and_joining() {
    let mut g = gui();
    match g.create_room() {
        GuiCmd::JoinRoom(r) => assert!(r.starts_with("room-") && r.len() == 13),
        _ => panic!(),
    }
    g.go_back();
    assert!(matches!(g.screen, Screen::Lobby));
    assert!(g.session.is_none());
    assert_eq!(g.connection_status, "");
    assert!(g.join_from_input().is_none());
    g.join_input = "  room-x ".into();
    match g.join_from_input() {
        Some(GuiCmd::JoinRoom(r)) => assert_eq!(r, "room-x"),
        _ => panic!(),
    }
    assert_eq!(g.join_input, "");
}

#[test]
fn peers_and_subscription() {
    let mut g = gui();
    g.on_peer_discovered("p1".into());
    g.on_peer_discovered("p1".into());
    assert_eq!(g.peers.len(), 1);
    assert_eq!(g.connection_status, "Connected (1 peer)");
    g.enter_room("r");
    let cmds = g.on_subscribed(None);
    assert_eq!(cmds.len(), 2);
    assert_eq!(g.connection_status, "Connected (1 peer)");
    assert!(!g.send_hs);
    assert!(g.on_subscribed(None).is_empty());
    g.on_error("boom".into());
    assert_eq!(g.error, "boom");
}

#[test]
fn typing_and_chat_from_peer() {
    let mut g = gui();
    g.enter_room("r");
    let mut peer = ChatSession::new("r".into(), "bob".into(), KeyPair::generate());
    let hs = peer.mk_handshake();
    let my_hs = g.session.as_ref().unwrap().mk_handshake();
    peer.process_wire(my_hs);
    assert!(g.on_wire(hs).is_empty());
    assert!(g.session.as_ref().unwrap().is_ready());
    g.on_wire(WireMessage::Control(ControlMessage::Typing { from: "bob".into(), sid: "bob".into() }));
    assert!(g.peer_typing);
    let w = peer.encrypt_and_encode("hey").unwrap();
    let stored = g.on_wire(w);
    assert_eq!(stored.len(), 1);
    assert_eq!(g.connection_status, "Chatting with bob");
    assert_eq!(g.messages.last().unwrap().text, "hey");
    let (tone, text) = g.status_line();
    assert_eq!(tone, StatusTone::Secure);
    assert_eq!(text, "\u{1f512} End-to-end encrypted \u{2014} Chatting with bob");
}

#[test]
fn sending_input() {
    let mut g = gui();
    g.enter_room("r");
    g.input = "   ".into();
    assert!(g.send_input("r").is_empty());
    assert_eq!(g.messages.len(), 1);
    g.input = " hi ".into();
    assert!(g.send_input("r").is_empty());
    assert_eq!(g.input, "");
    assert_eq!(g.messages.last().unwrap().text, "hi");
    assert!(g.messages.last().unwrap().mine);
    let peer = KeyPair::generate();
    g.session.as_mut().unwrap().set_peer_pk(&peer.pk).unwrap();
    g.input = "yo".into();
    let cmds = g.send_input("r");
    assert_eq!(cmds.len(), 1);
    let (tone, text) = g.status_line();
    assert_eq!(tone, StatusTone::Secure);
    assert_eq!(text, "\u{1f512} End-to-end encrypted");
}

#[test]
fn typing_notice_and_alias() {
    let mut g = gui();
    match g.typing_message() {
        WireMessage::Control(ControlMessage::Typing { from, sid }) => {
            assert_eq!(from, "me");
            assert_eq!(sid, "me");
        }
        _ => panic!(),
    }
    g.room_alias = "friends".into();
    assert_eq!(g.heading("room-1"), "friends");
    g.copy_room_id("room-1");
    assert_eq!(g.pending_clipboard.as_deref(), Some("room-1"));
}
