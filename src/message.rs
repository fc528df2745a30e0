//! The unit of exchange between publishers and subscribers, and its
//! validation at the publish boundary.
use vstd::prelude::*;

verus! {

/// Longest `room` or `username` accepted, in characters.
pub const MAX_FIELD_LEN: usize = 30;

/// A chat message as posted by a client.
#[derive(Debug, Clone, PartialEq, Eq)]
pub struct Message {
    pub room: String,
    pub username: String,
    pub message: String,
}

/// The mathematical value of a [`Message`]: its three fields as character sequences.
pub struct MessageView {
    pub room: Seq<char>,
    pub username: Seq<char>,
    pub message: Seq<char>,
}

impl View for Message {
    type V = MessageView;

    open spec fn view(&self) -> MessageView {
        MessageView { room: self.room@, username: self.username@, message: self.message@ }
    }
}

/// Why a posted message was refused before reaching the bus.
#[derive(Debug, Clone, Copy, PartialEq, Eq, Structural)]
pub enum ValidationError {
    RoomTooLong,
    UsernameTooLong,
}

/// A message is accepted when both its room and its username have at most
/// `MAX_FIELD_LEN` characters; the body is not limited.
pub open spec fn valid_fields(room: Seq<char>, username: Seq<char>) -> bool {
    room.len() <= MAX_FIELD_LEN && username.len() <= MAX_FIELD_LEN
}

/// The outcome of validating the three posted fields: the room is checked first.
pub open spec fn validate_spec(room: Seq<char>, username: Seq<char>, message: Seq<char>) -> Result<
    MessageView,
    ValidationError,
> {
    if room.len() > MAX_FIELD_LEN {
        Err(ValidationError::RoomTooLong)
    } else if username.len() > MAX_FIELD_LEN {
        Err(ValidationError::UsernameTooLong)
    } else {
        Ok(MessageView { room, username, message })
    }
}

impl Message {
    /// Builds a message from posted fields, refusing a room or username
    /// longer than `MAX_FIELD_LEN` characters.
    pub fn new(room: String, username: String, message: String) -> (r: Result<Message, ValidationError>)
        ensures
            match (r, validate_spec(room@, username@, message@)) {
                (Ok(m), Ok(v)) => m@ == v,
                (Err(e), Err(f)) => e == f,
                _ => false,
            },
    {
        if room.as_str().unicode_len() > MAX_FIELD_LEN {
            Err(ValidationError::RoomTooLong)
        } else if username.as_str().unicode_len() > MAX_FIELD_LEN {
            Err(ValidationError::UsernameTooLong)
        } else {
            Ok(Message { room, username, message })
        }
    }

    /// A copy of this message with the same three fields.
    pub fn duplicate(&self) -> (r: Message)
        ensures
            r@ == self@,
    {
        Message {
            room: self.room.clone(),
            username: self.username.clone(),
            message: self.message.clone(),
        }
    }
}

} // verus!
