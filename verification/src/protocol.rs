//! The messages that peers exchange in a room. Binary fields (ciphertexts,
//! nonces, public keys) travel as standard base64 text.

use vstd::prelude::*;

verus! {

/// Messages that set up and maintain a conversation.
#[derive(Debug, Clone)]
pub enum ControlMessage {
    /// A peer's X25519 public key (`pk`, base64).
    PublicKey { from: String, pk: String, sid: String },
    /// A peer is typing.
    Typing { from: String, sid: String },
    /// A peer asks for the messages after `since`.
    WantSince { from: String, since: i64, sid: String },
    /// Messages after `since`, re-encrypted for the receiver.
    HistoryChunk { from: String, since: i64, items: Vec<HistoryItem>, sid: String },
    /// Addresses of peers the sender knows.
    PeerExchange { from: String, peers: Vec<String>, sid: String },
}

/// One message of a history chunk.
#[derive(Debug, Clone)]
pub struct HistoryItem {
    pub id: String,
    pub from: String,
    pub ct: String,
    pub nonce: String,
    pub seq: u64,
    pub ts: i64,
}

/// An encrypted chat message.
#[derive(Debug, Clone)]
pub struct ChatMessage {
    pub id: String,
    pub from: String,
    pub ct: String,
    pub nonce: String,
    pub seq: u64,
    pub ts: i64,
    pub sid: Option<String>,
}

/// Acknowledgement of a message.
#[derive(Debug, Clone)]
pub struct AckMessage {
    pub id: String,
    pub from: String,
    pub ts: i64,
}

/// Everything that travels in a room.
#[derive(Debug, Clone)]
pub enum WireMessage {
    Control(ControlMessage),
    Chat(ChatMessage),
    Ack(AckMessage),
}

} // verus!
