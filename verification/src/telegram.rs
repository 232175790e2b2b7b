//! The subset of the messaging platform's data model that the
//! decision engine reads: an update, its message, the sending account
//! and the chat. Transport framing and delivery live outside the
//! library; these records arrive already decoded into plain values.

use vstd::prelude::*;

verus! {

/// A platform account: its identifier, whether it is an automated
/// account, and its optional display handle.
pub struct User {
    pub id: i64,
    pub is_bot: bool,
    pub username: Option<String>,
}

/// The chat a message arrived in.
pub struct Chat {
    pub id: i64,
    pub kind: String,
}

/// One inbound message: its identifier, the optional sender, the
/// originating chat and the optional text content.
pub struct Message {
    pub message_id: i64,
    pub from: Option<User>,
    pub chat: Chat,
    pub text: Option<String>,
}

/// One long-poll update: its offset marker and the optional message.
pub struct TgUpdate {
    pub update_id: i64,
    pub message: Option<Message>,
}

/// The platform's reply envelope around a result.
pub struct TgResponse<T> {
    pub result: T,
}

} // verus!
