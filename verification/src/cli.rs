//! The command line: what the user asked for, and what a typed line means.

use vstd::prelude::*;

use crate::encoding::{trim, trimmed};
use crate::entropy::{is_uuid_char, new_uuid};

verus! {

/// The command-line arguments.
#[derive(Debug, Clone)]
pub struct Cli {
    pub command: Option<Command>,
    pub name: String,
    /// A relay to dial and reserve a circuit on, for a peer that cannot be
    /// reached directly.
    pub relay: Option<String>,
}

/// The subcommands.
#[derive(Debug, Clone)]
pub enum Command {
    /// Create a room and chat in it.
    Create,
    /// Join a room by id.
    Join { room_id: String },
    /// List the rooms kept on this device.
    List,
    /// Open the terminal user interface.
    Tui,
    /// Run a reachable relay node listening at a multiaddr.
    Relay { listen: String },
}

impl Cli {
    /// The subcommand to run: the one given, else `List`.
    pub fn command_or_default(self) -> (c: Command)
        ensures
            match self.command {
                Some(given) => c == given,
                None => c is List,
            },
    {
        match self.command {
            Some(c) => c,
            None => Command::List,
        }
    }
}

/// A room id made from a UUID: `room-` and its first eight characters.
pub open spec fn room_id_of(uuid: Seq<char>) -> Seq<char> {
    "room-"@ + uuid.subrange(0, 8)
}

/// The room id made from `uuid`.
pub fn room_id_from(uuid: &str) -> (id: String)
    requires
        uuid@.len() >= 8,
    ensures
        id@ == room_id_of(uuid@),
{
    String::from_str("room-").concat(uuid.substring_char(0, 8))
}

/// A fresh room id, from a random UUID.
pub fn new_room_id() -> (id: String)
    ensures
        id@.len() == 13,
        id@.subrange(0, 5) == "room-"@,
        forall|i: int| 5 <= i < 13 ==> is_uuid_char(#[trigger] id@[i]),
{
    let u = new_uuid();
    let id = room_id_from(u.as_str());
    proof {
        reveal_strlit("room-");
        assert(id@.subrange(0, 5) =~= "room-"@);
        assert forall|i: int| 5 <= i < 13 implies is_uuid_char(#[trigger] id@[i]) by {
            assert(id@[i] == u@[i - 5]);
        }
    }
    id
}

/// What a line typed in the chat means.
#[derive(Debug, Clone)]
pub enum LineInput {
    /// Nothing but white space: ignored.
    Skip,
    /// `/quit`: leave.
    Quit,
    /// A message to send.
    Text(String),
}

/// The meaning of `line`, with surrounding white space removed.
pub open spec fn line_meaning(line: Seq<char>) -> Option<Option<Seq<char>>> {
    let t = trimmed(line);
    if t.len() == 0 {
        None
    } else if t == "/quit"@ {
        Some(None)
    } else {
        Some(Some(t))
    }
}

/// Reads a typed line.
pub fn classify_line(line: &str) -> (r: LineInput)
    ensures
        match (r, line_meaning(line@)) {
            (LineInput::Skip, None) => true,
            (LineInput::Quit, Some(None)) => true,
            (LineInput::Text(t), Some(Some(u))) => t@ == u,
            _ => false,
        },
        r is Skip <==> trimmed(line@).len() == 0,
        r is Quit <==> trimmed(line@) == "/quit"@,
        r matches LineInput::Text(t) ==> t@ == trimmed(line@),
{
    proof {
        lemma_line_meaning(line@);
    }
    let t = trim(line);
    if t.as_str().is_empty() {
        LineInput::Skip
    } else if t == String::from_str("/quit") {
        LineInput::Quit
    } else {
        LineInput::Text(t)
    }
}

/// A typed line quits exactly when, white space removed, it is `/quit`;
/// a blank line means nothing; every other line is sent as its trimmed
/// text, whatever it starts with.
pub proof fn lemma_line_meaning(line: Seq<char>)
    ensures
        line_meaning(line) is None <==> trimmed(line).len() == 0,
        line_meaning(line) == Some(None::<Seq<char>>) <==> trimmed(line) == "/quit"@,
        trimmed(line).len() > 0 && trimmed(line) != "/quit"@ ==> line_meaning(line) == Some(Some(trimmed(line))),
{
    reveal_strlit("/quit");
}

} // verus!
