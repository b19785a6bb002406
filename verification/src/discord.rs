//! What the bridge receives from Discord and what it asks Discord to do, as
//! plain values.

use vstd::prelude::*;

verus! {

/// Who wrote a message.
pub struct Author {
    pub id: u64,
    pub name: String,
    /// The four digits behind the name, 0 for an account that has none.
    pub discriminator: u16,
    pub bot: bool,
}

/// A message was created in a channel.
pub struct MessageCreate {
    pub id: u64,
    pub channel_id: u64,
    pub author: Author,
    pub content: String,
}

/// A request to post a message in a channel.
#[derive(Debug)]
pub struct CreateMessage {
    pub channel_id: u64,
    pub content: String,
}

/// A request to react to a message with an emoji.
#[derive(Debug)]
pub struct CreateReaction {
    pub channel_id: u64,
    pub message_id: u64,
    pub emoji: char,
}

} // verus!
