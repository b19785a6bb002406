//! Messages on their way from a chat platform to Minecraft.
//!
//! A platform hands over what a user wrote. The bridge turns it into a chat
//! line, checks that the line is legal to send, and answers with what became
//! of it, so that the platform can tell the user.

use vstd::prelude::*;
use crate::avoid_kick::{ChatRequest, SendChatEvent};
use crate::legal::{legal_to_minecraft, message_legal_to_minecraft};

verus! {

/// We're sending a message to Minecraft from a bridge. The context goes back
/// to the platform with the answer.
pub struct ToMinecraftEvent<T> {
    pub username: String,
    pub content: String,
    pub context: T,
}

/// What became of a message that was to go to Minecraft.
#[derive(Clone, Copy, Debug, PartialEq, Eq, Structural)]
pub enum BridgeInfoKind {
    /// The message is on its way.
    Ack,
    /// No identity is on the server to send it.
    NotInServer,
    /// The message is not legal to send.
    IllegalMessage,
}

/// The answer to a [`ToMinecraftEvent`], with the context of the event.
pub struct BridgeInfoEvent<T> {
    pub kind: BridgeInfoKind,
    pub context: T,
}

/// The chat line that shows `content` as written by `username`.
pub open spec fn minecraft_line(username: Seq<char>, content: Seq<char>) -> Seq<char> {
    seq!['/', 'm', 'e', ' ', '<'] + username + seq!['>', ' '] + content
}

/// What becomes of a chat line: an illegal line is refused whether or not an
/// identity is on the server, a legal line needs an identity to send it.
pub open spec fn bridge_info(local: Option<u64>, line: Seq<char>) -> BridgeInfoKind {
    if !legal_to_minecraft(line) {
        BridgeInfoKind::IllegalMessage
    } else if local is None {
        BridgeInfoKind::NotInServer
    } else {
        BridgeInfoKind::Ack
    }
}

/// The chat line that shows `content` as written by `username`.
pub fn format_minecraft_line(username: &str, content: &str) -> (line: String)
    ensures
        line@ == minecraft_line(username@, content@),
{
    let mut line = String::new();
    line.push('/');
    line.push('m');
    line.push('e');
    line.push(' ');
    line.push('<');
    line.append(username);
    line.push('>');
    line.push(' ');
    line.append(content);
    assert(line@ =~= minecraft_line(username@, content@));
    line
}

/// Decides what becomes of a message for Minecraft, where `local` is the
/// identity on the server, if there is one. The answer carries the context of
/// the event. With the answer `Ack` comes the request to send the line, and
/// with no other answer.
pub fn to_minecraft<T>(local: Option<u64>, event: ToMinecraftEvent<T>) -> (answer: (
    BridgeInfoEvent<T>,
    Option<SendChatEvent>,
))
    ensures
        answer.0.context == event.context,
        answer.0.kind == bridge_info(local, minecraft_line(event.username@, event.content@)),
        answer.1 is Some <==> answer.0.kind == BridgeInfoKind::Ack,
        answer.1 matches Some(request) ==> local matches Some(entity) && request@ == (ChatRequest {
            entity,
            content: minecraft_line(event.username@, event.content@),
        }),
{
    let line = format_minecraft_line(event.username.as_str(), event.content.as_str());
    match local {
        Some(entity) => match SendChatEvent::new(entity, line.as_str()) {
            Some(request) => (
                BridgeInfoEvent { kind: BridgeInfoKind::Ack, context: event.context },
                Some(request),
            ),
            None => (
                BridgeInfoEvent { kind: BridgeInfoKind::IllegalMessage, context: event.context },
                None,
            ),
        },
        None => {
            let kind = if message_legal_to_minecraft(line.as_str()) {
                BridgeInfoKind::NotInServer
            } else {
                BridgeInfoKind::IllegalMessage
            };
            (BridgeInfoEvent { kind, context: event.context }, None)
        },
    }
}

} // verus!
