//! What the local message database holds.

use vstd::prelude::*;

verus! {

/// A decrypted message as it is kept on this device.
#[derive(Debug, Clone)]
pub struct StoredMessage {
    pub id: String,
    pub room_id: String,
    pub from_id: String,
    pub text: String,
    pub ts: i64,
}

/// The plain content of a stored message.
pub struct StoredView {
    pub id: Seq<char>,
    pub room_id: Seq<char>,
    pub from_id: Seq<char>,
    pub text: Seq<char>,
    pub ts: i64,
}

impl View for StoredMessage {
    type V = StoredView;

    open spec fn view(&self) -> StoredView {
        StoredView {
            id: self.id@,
            room_id: self.room_id@,
            from_id: self.from_id@,
            text: self.text@,
            ts: self.ts,
        }
    }
}

} // verus!
