//! The Discord side of the bridge.
//!
//! Lines for Discord wait in a queue. A flush joins as many lines from the
//! front of the queue as fit into one message and asks for that message to be
//! posted. Every line posted costs 20 of a credit that decays by one per
//! flush; while the credit is at 100 or above, nothing is posted.

use vstd::prelude::*;
use std::collections::VecDeque;
use crate::bridge::{BridgeInfoEvent, BridgeInfoKind, ToMinecraftEvent};
use crate::discord::{CreateMessage, CreateReaction, MessageCreate};
use crate::text::{lemma_utf8_len_concat, push_zero_padded, utf8_len, zero_padded};

verus! {

/// The longest message, in UTF-8 bytes, that a flush posts. Discord takes
/// twice as much.
pub const MAX_PAYLOAD_BYTES: usize = 1000;

/// While the credit is at or above this bound, nothing is posted.
pub const RATELIMIT_BOUND: usize = 100;

/// What one posted line adds to the credit.
pub const LINE_COST: usize = 20;

/// The credit never exceeds this bound: a flush starts below 100 and posts at
/// most 1001 lines.
pub const MAX_RATELIMIT: usize = 20119;

/// The reaction for a message that is on its way.
pub const THUMBS_UP: char = '\u{1F44D}';

/// The reaction for a message that no identity is there to send.
pub const THUMBS_DOWN: char = '\u{1F44E}';

/// The reaction for a message that is not legal to send.
pub const NO_ENTRY: char = '\u{1F6AB}';

/// The lines with a line feed between each two.
pub open spec fn joined(lines: Seq<Seq<char>>) -> Seq<char>
    decreases lines.len(),
{
    if lines.len() == 0 {
        Seq::empty()
    } else if lines.len() == 1 {
        lines[0]
    } else {
        joined(lines.drop_last()) + seq!['\n'] + lines.last()
    }
}

/// Whether the lines, joined, fit into one message.
pub open spec fn fits(lines: Seq<Seq<char>>) -> bool {
    utf8_len(joined(lines)) <= MAX_PAYLOAD_BYTES
}

/// How many lines from the front of `queue` one message takes, when it has
/// taken `taken` already: lines are added as long as the next one still fits.
pub open spec fn batch_count(queue: Seq<Seq<char>>, taken: nat) -> nat
    decreases queue.len() - taken,
{
    if taken < queue.len() && fits(queue.take(taken + 1 as int)) {
        batch_count(queue, taken + 1)
    } else {
        taken
    }
}

/// A text with a backslash in front of every `*` and `_`, so that Discord
/// shows it as it is.
pub open spec fn escaped(text: Seq<char>) -> Seq<char>
    decreases text.len(),
{
    if text.len() == 0 {
        Seq::empty()
    } else if text.last() == '*' || text.last() == '_' {
        escaped(text.drop_last()).push('\\').push(text.last())
    } else {
        escaped(text.drop_last()).push(text.last())
    }
}

/// The name under which a Discord user appears in Minecraft: the name alone
/// for an account without discriminator, and else the name, `#` and the
/// discriminator in four digits.
pub open spec fn display_name(name: Seq<char>, discriminator: u16) -> Seq<char> {
    if discriminator == 0 {
        name
    } else {
        name + seq!['#'] + zero_padded(discriminator as nat, 4)
    }
}

/// The reaction that tells a Discord user what became of a message.
pub open spec fn reaction_emoji(kind: BridgeInfoKind) -> char {
    match kind {
        BridgeInfoKind::Ack => THUMBS_UP,
        BridgeInfoKind::NotInServer => THUMBS_DOWN,
        BridgeInfoKind::IllegalMessage => NO_ENTRY,
    }
}

/// The model of the batcher of one channel.
pub struct BatchState {
    pub channel_id: u64,
    pub queue: Seq<Seq<char>>,
    pub rate_credit: nat,
}

impl BatchState {
    /// The credit is within its bound.
    pub open spec fn wf(self) -> bool {
        self.rate_credit <= MAX_RATELIMIT
    }

    /// The state after `line` joined the back of the queue.
    pub open spec fn enqueue(self, line: Seq<char>) -> Self {
        BatchState { queue: self.queue.push(line), ..self }
    }

    /// The credit after one flush's decay.
    pub open spec fn decayed_credit(self) -> nat {
        if self.rate_credit > 0 {
            (self.rate_credit - 1) as nat
        } else {
            0
        }
    }

    /// Whether the next flush posts nothing because of the credit.
    pub open spec fn rate_limited(self) -> bool {
        self.decayed_credit() >= RATELIMIT_BOUND
    }

    /// How many lines the next flush posts.
    pub open spec fn flush_count(self) -> nat {
        if self.rate_limited() {
            0
        } else {
            batch_count(self.queue, 0)
        }
    }

    /// The message that the next flush posts, if it posts one.
    pub open spec fn payload(self) -> Option<Seq<char>> {
        if self.flush_count() == 0 {
            None
        } else {
            Some(joined(self.queue.take(self.flush_count() as int)))
        }
    }

    /// The state after the next flush.
    pub open spec fn flush(self) -> Self {
        BatchState {
            queue: self.queue.skip(self.flush_count() as int),
            rate_credit: (self.decayed_credit() + self.flush_count() * LINE_COST) as nat,
            ..self
        }
    }
}

/// Where a Discord message came from, so that the answer can go to it.
#[derive(Clone, Copy, Debug, PartialEq, Eq, Structural)]
pub struct DiscordContext {
    pub channel_id: u64,
    pub message_id: u64,
}

/// The channel that the bridge serves.
pub struct DiscordBridgePlugin {
    pub channel_id: u64,
}

/// The batcher of one channel: the lines that wait, and the credit.
pub struct DiscordBridge {
    channel_id: u64,
    discord_queue: VecDeque<String>,
    /// The number of flushes we have to wait until the credit is fully reset.
    /// Posting a line adds 20; at 100 or above nothing is posted.
    discord_ratelimit: usize,
}

impl View for DiscordBridge {
    type V = BatchState;

    closed spec fn view(&self) -> BatchState {
        BatchState {
            channel_id: self.channel_id,
            queue: self.discord_queue@.map_values(|line: String| line@),
            rate_credit: self.discord_ratelimit as nat,
        }
    }
}

impl DiscordBridgePlugin {
    /// The batcher for the channel, with an empty queue and no credit used.
    pub fn build(&self) -> (bridge: DiscordBridge)
        ensures
            bridge@ == (BatchState {
                channel_id: self.channel_id,
                queue: Seq::empty(),
                rate_credit: 0,
            }),
            bridge.wf(),
    {
        let bridge = DiscordBridge {
            channel_id: self.channel_id,
            discord_queue: VecDeque::new(),
            discord_ratelimit: 0,
        };
        assert(bridge@.queue =~= Seq::empty());
        bridge
    }
}

/// A line feed takes one byte.
pub proof fn lemma_line_feed_len()
    ensures
        utf8_len(seq!['\n']) == 1,
{
    let text = seq!['\n'];
    assert(text.drop_first() =~= Seq::<char>::empty());
    reveal_with_fuel(vstd::utf8::encode_utf8, 2);
}

/// The length of the first `count + 1` lines, joined, from the length of the
/// first `count`.
pub proof fn lemma_joined_len(queue: Seq<Seq<char>>, count: nat)
    requires
        count < queue.len(),
    ensures
        utf8_len(joined(queue.take(count + 1 as int))) == if count == 0 {
            utf8_len(queue[0])
        } else {
            utf8_len(joined(queue.take(count as int))) + 1 + utf8_len(queue[count as int])
        },
        joined(queue.take(count + 1 as int)) == if count == 0 {
            queue[0]
        } else {
            joined(queue.take(count as int)) + seq!['\n'] + queue[count as int]
        },
{
    let lines = queue.take(count + 1 as int);
    assert(lines.last() == queue[count as int]);
    if count > 0 {
        assert(lines.drop_last() =~= queue.take(count as int));
        lemma_line_feed_len();
        lemma_utf8_len_concat(joined(queue.take(count as int)), seq!['\n']);
        lemma_utf8_len_concat(joined(queue.take(count as int)) + seq!['\n'], queue[count as int]);
    }
}

/// A text with a backslash in front of every `*` and `_`.
pub fn escape_markdown(text: &str) -> (out: String)
    ensures
        out@ == escaped(text@),
{
    let mut out = String::new();
    let chars = text.chars();
    assert(text@.take(0) =~= Seq::<char>::empty());
    for c in it: chars
        invariant
            it.seq() == text@,
            out@ == escaped(text@.take(it.index())),
    {
        proof {
            let seen = text@.take(it.index() + 1);
            assert(seen.drop_last() =~= text@.take(it.index()));
            assert(seen.last() == c);
        }
        if c == '*' || c == '_' {
            out.push('\\');
        }
        out.push(c);
    }
    assert(text@.take(text@.len() as int) =~= text@);
    out
}

/// The name under which a Discord user appears in Minecraft.
pub fn format_display_name(name: &str, discriminator: u16) -> (out: String)
    ensures
        out@ == display_name(name@, discriminator),
{
    let mut out = name.to_owned();
    if discriminator != 0 {
        out.push('#');
        push_zero_padded(&mut out, discriminator as usize);
        assert(out@ =~= display_name(name@, discriminator));
    }
    out
}

/// The reaction that tells the author of a Discord message what became of it:
/// thumbs up for a message on its way, thumbs down where no identity is on
/// the server, and a no-entry sign for an illegal message.
pub fn handle_bridge_info_events(event: &BridgeInfoEvent<DiscordContext>) -> (reaction:
    CreateReaction)
    ensures
        reaction.channel_id == event.context.channel_id,
        reaction.message_id == event.context.message_id,
        reaction.emoji == reaction_emoji(event.kind),
{
    let emoji = match event.kind {
        BridgeInfoKind::Ack => THUMBS_UP,
        BridgeInfoKind::NotInServer => THUMBS_DOWN,
        BridgeInfoKind::IllegalMessage => NO_ENTRY,
    };
    CreateReaction {
        channel_id: event.context.channel_id,
        message_id: event.context.message_id,
        emoji,
    }
}

impl DiscordBridge {
    /// The credit is within its bound.
    pub open spec fn wf(&self) -> bool {
        self@.wf()
    }

    /// The channel that the batcher serves.
    pub fn channel_id(&self) -> (channel_id: u64)
        ensures
            channel_id == self@.channel_id,
    {
        self.channel_id
    }

    /// The number of lines that wait.
    pub fn queue_len(&self) -> (len: usize)
        ensures
            len == self@.queue.len(),
    {
        self.discord_queue.len()
    }

    /// The credit.
    pub fn discord_ratelimit(&self) -> (credit: usize)
        ensures
            credit == self@.rate_credit,
    {
        self.discord_ratelimit
    }

    /// Appends `line` to the queue as it is.
    pub fn enqueue(&mut self, line: String)
        ensures
            final(self)@ == old(self)@.enqueue(line@),
    {
        self.discord_queue.push_back(line);
        assert(self@.queue =~= old(self)@.queue.push(line@));
    }

    /// Appends a text from Minecraft to the queue, with a backslash in front
    /// of every `*` and `_`.
    pub fn minecraft_to_discord_queue(&mut self, content: &str)
        ensures
            final(self)@ == old(self)@.enqueue(escaped(content@)),
    {
        let line = escape_markdown(content);
        self.enqueue(line);
    }

    /// Turns a Discord message into a message for Minecraft. A message from
    /// another channel is passed over, and so is one from a bot that has a
    /// discriminator.
    pub fn discord_to_minecraft(&self, event: &MessageCreate) -> (forwarded: Option<
        ToMinecraftEvent<DiscordContext>,
    >)
        ensures
            forwarded is Some <==> !(event.author.bot && event.author.discriminator != 0)
                && event.channel_id == self@.channel_id,
            forwarded matches Some(e) ==> {
                &&& e.content@ == event.content@
                &&& e.username@ == display_name(event.author.name@, event.author.discriminator)
                &&& e.context == (DiscordContext {
                    channel_id: event.channel_id,
                    message_id: event.id,
                })
            },
    {
        if event.author.bot && event.author.discriminator != 0 {
            return None;
        }
        if event.channel_id != self.channel_id {
            return None;
        }
        Some(
            ToMinecraftEvent {
                content: event.content.clone(),
                username: format_display_name(event.author.name.as_str(), event.author.discriminator),
                context: DiscordContext { channel_id: event.channel_id, message_id: event.id },
            },
        )
    }

    /// Runs one flush. The credit decays by one unless it is 0. If it is then
    /// at 100 or above, nothing else happens. Otherwise lines leave the front
    /// of the queue, each for a cost of 20, as long as the next line, joined
    /// to those before it by a line feed, keeps the message within 1000
    /// bytes. The message is returned if it holds a line. A line that does
    /// not fit stays at the front of the queue.
    pub fn flush_to_discord_queue(&mut self) -> (message: Option<CreateMessage>)
        requires
            old(self).wf(),
        ensures
            final(self)@ == old(self)@.flush(),
            match old(self)@.payload() {
                Some(text) => message matches Some(m) && m.channel_id == old(self)@.channel_id
                    && m.content@ == text,
                None => message is None,
            },
            final(self).wf(),
    {
        if self.discord_ratelimit > 0 {
            self.discord_ratelimit -= 1;
        }
        if self.discord_ratelimit >= RATELIMIT_BOUND {
            // ratelimited!
            assert(self@.queue =~= old(self)@.queue.skip(0));
            return None;
        }
        let ghost before = old(self)@;
        let mut content = String::new();
        let mut used: usize = 0;
        let mut taken: usize = 0;
        assert(self@.queue =~= before.queue.skip(0));
        assert(before.queue.take(0) =~= Seq::<Seq<char>>::empty());
        while self.discord_queue.len() > 0
            invariant
                taken <= before.queue.len(),
                self.discord_queue@.len() == before.queue.len() - taken,
                self@.queue == before.queue.skip(taken as int),
                self@.channel_id == before.channel_id,
                batch_count(before.queue, taken as nat) == batch_count(before.queue, 0),
                content@ == joined(before.queue.take(taken as int)),
                used == utf8_len(content@),
                used <= MAX_PAYLOAD_BYTES,
                taken <= used + 1,
                self.discord_ratelimit == before.decayed_credit() + taken * LINE_COST,
                before.decayed_credit() < RATELIMIT_BOUND,
            ensures
                taken == batch_count(before.queue, 0),
                taken <= before.queue.len(),
                self@.queue == before.queue.skip(taken as int),
                self@.channel_id == before.channel_id,
                content@ == joined(before.queue.take(taken as int)),
                taken <= MAX_PAYLOAD_BYTES + 1,
                self.discord_ratelimit == before.decayed_credit() + taken * LINE_COST,
            decreases self.discord_queue@.len(),
        {
            let line_len: usize = self.discord_queue[0].as_str().as_bytes().len();
            proof {
                assert(self@.queue[0] == before.queue[taken as int]);
                lemma_joined_len(before.queue, taken as nat);
            }
            let line_fits = if taken == 0 {
                line_len <= MAX_PAYLOAD_BYTES
            } else {
                used < MAX_PAYLOAD_BYTES && line_len <= MAX_PAYLOAD_BYTES - used - 1
            };
            if !line_fits {
                break;
            }
            let ghost current = self@;
            match self.discord_queue.pop_front() {
                Some(line) => {
                    self.discord_ratelimit += LINE_COST;
                    if taken > 0 {
                        content.push('\n');
                        used += 1;
                    }
                    content.append(line.as_str());
                    used += line_len;
                    taken += 1;
                    proof {
                        assert(self@.queue =~= current.queue.drop_first());
                        assert(self@.queue =~= before.queue.skip(taken as int));
                        assert(content@ =~= joined(before.queue.take(taken as int)));
                    }
                },
                None => {},
            }
        }
        if taken == 0 {
            None
        } else {
            Some(CreateMessage { channel_id: self.channel_id, content })
        }
    }
}

} // verus!
