//! The window of recent messages from Minecraft.
//!
//! Servers and players repeat themselves. The window remembers the messages
//! seen lately, most recently seen last, and counts how often each one came.
//! A message is shown when it is first seen and whenever its count reaches a
//! power of two. When an entry leaves the window with a count that was never
//! shown, it is shown one last time.

use vstd::prelude::*;
use std::collections::VecDeque;
use crate::text::{decimal, push_decimal};
use crate::window_laws::law_observe_keeps_contents_distinct;

verus! {

/// The window keeps at most this many entries once stale ones were popped.
pub const SOFT_MAX: usize = 5;

/// Whether `n` is 1, 2, 4, 8, ...
pub open spec fn is_power_of_two(n: nat) -> bool
    decreases n,
{
    n == 1 || (n > 1 && n % 2 == 0 && is_power_of_two(n / 2))
}

/// A count one higher, unless the count is the largest that fits.
pub open spec fn next_count(count: nat) -> nat {
    if count < usize::MAX {
        count + 1
    } else {
        count
    }
}

/// How a message is shown that was sent `sent_count` times: as it is the first
/// time, and with the count behind it after that.
pub open spec fn repeat_text(message: Seq<char>, sent_count: nat) -> Seq<char> {
    if sent_count == 1 {
        message
    } else {
        message + seq![' ', '[', 'x'] + decimal(sent_count) + seq![']']
    }
}

/// How long an entry may rest before it is stale: longer for messages that
/// were sent many times.
pub open spec fn max_wait_time(sent_count: nat) -> nat {
    if sent_count > 32 {
        16
    } else if sent_count > 16 {
        8
    } else {
        2
    }
}

/// The time between `sent_at` and `now`, 0 if `now` is the earlier one.
pub open spec fn elapsed(sent_at: u64, now: u64) -> nat {
    if now >= sent_at {
        (now - sent_at) as nat
    } else {
        0
    }
}

/// Whether an entry that leaves the window is shown one last time: its count
/// is above 2 and was never shown, which is the case when it is no power of
/// two.
pub open spec fn shown_when_popped(sent_count: nat) -> bool {
    sent_count > 2 && !is_power_of_two(sent_count)
}

/// A message in the window.
pub struct RecentMessage<P> {
    pub content: String,
    pub packet: P,
    /// The number of times the message was sent. 1 if the message was sent
    /// once.
    pub sent_count: usize,
    pub sent_at: u64,
}

/// The model of a [`RecentMessage`].
pub struct Recent<P> {
    pub content: Seq<char>,
    pub packet: P,
    pub sent_count: nat,
    pub sent_at: u64,
}

impl<P> View for RecentMessage<P> {
    type V = Recent<P>;

    open spec fn view(&self) -> Recent<P> {
        Recent {
            content: self.content@,
            packet: self.packet,
            sent_count: self.sent_count as nat,
            sent_at: self.sent_at,
        }
    }
}

impl<P> Recent<P> {
    /// Whether the entry has rested longer than its count allows.
    pub open spec fn waited_enough(self, now: u64) -> bool {
        elapsed(self.sent_at, now) > max_wait_time(self.sent_count)
    }

    /// What is shown for the entry when it leaves the window.
    pub open spec fn last_notice(self) -> Notice<P> {
        Notice { content: repeat_text(self.content, self.sent_count), packet: self.packet }
    }
}

/// We received a message from Minecraft. This is what a bridge should show.
/// It may differ from the message shown in Minecraft, since repeated messages
/// are collapsed.
pub struct FromMinecraftEvent<P> {
    pub content: String,
    pub packet: P,
}

/// The model of a [`FromMinecraftEvent`].
pub struct Notice<P> {
    pub content: Seq<char>,
    pub packet: P,
}

impl<P> View for FromMinecraftEvent<P> {
    type V = Notice<P>;

    open spec fn view(&self) -> Notice<P> {
        Notice { content: self.content@, packet: self.packet }
    }
}

/// The models of a sequence of events, in the same order.
pub open spec fn events_view<P>(events: Seq<FromMinecraftEvent<P>>) -> Seq<Notice<P>> {
    events.map_values(|event: FromMinecraftEvent<P>| event@)
}

/// The notices for the entries that leave the window, in the order in which
/// they leave.
pub open spec fn last_notices<P>(popped: Seq<Recent<P>>) -> Seq<Notice<P>>
    decreases popped.len(),
{
    if popped.len() == 0 {
        Seq::empty()
    } else if shown_when_popped(popped.last().sent_count) {
        last_notices(popped.drop_last()).push(popped.last().last_notice())
    } else {
        last_notices(popped.drop_last())
    }
}

/// The model of the window: its entries, the one seen longest ago first.
pub struct DedupWindow<P> {
    pub entries: Seq<Recent<P>>,
}

impl<P> DedupWindow<P> {
    /// No two entries hold the same content, and every count is at least 1.
    pub open spec fn wf(self) -> bool {
        &&& forall|i: int, j: int|
            0 <= i < j < self.entries.len() ==> self.entries[i].content != self.entries[j].content
        &&& forall|i: int| 0 <= i < self.entries.len() ==> self.entries[i].sent_count >= 1
    }

    /// The contents of the entries, in order.
    pub open spec fn contents(self) -> Seq<Seq<char>> {
        self.entries.map_values(|entry: Recent<P>| entry.content)
    }

    /// Where `content` stands in the window, if it does.
    pub open spec fn position(self, content: Seq<char>) -> Option<int> {
        self.contents().index_of_first(content)
    }

    /// The window after `content` was seen at time `now`: a new entry with
    /// count 1 at the back, or the entry of that content moved to the back
    /// with its count raised. The entry holds the packet of the latest
    /// sighting.
    pub open spec fn observe(self, content: Seq<char>, packet: P, now: u64) -> Self {
        match self.position(content) {
            None => DedupWindow {
                entries: self.entries.push(
                    Recent { content, packet, sent_count: 1, sent_at: now },
                ),
            },
            Some(i) => DedupWindow {
                entries: self.entries.remove(i).push(
                    Recent {
                        content,
                        packet,
                        sent_count: next_count(self.entries[i].sent_count),
                        sent_at: now,
                    },
                ),
            },
        }
    }

    /// What is shown when `content` is seen: the content itself if it is new to
    /// the window, the content with its count if the count reaches a power of
    /// two, and nothing otherwise.
    pub open spec fn observe_text(self, content: Seq<char>) -> Option<Seq<char>> {
        match self.position(content) {
            None => Some(content),
            Some(i) => {
                let sent_count = next_count(self.entries[i].sent_count);
                if is_power_of_two(sent_count) {
                    Some(repeat_text(content, sent_count))
                } else {
                    None
                }
            },
        }
    }

    /// Whether the front entry leaves the window at time `now`: the window is
    /// over its size, or the entry is stale.
    pub open spec fn pops_front(self, now: u64) -> bool {
        self.entries.len() > 0 && (self.entries.len() > SOFT_MAX || self.entries[0].waited_enough(
            now,
        ))
    }

    /// How many entries leave the front of the window at time `now`.
    pub open spec fn pop_count(self, now: u64) -> nat
        decreases self.entries.len(),
    {
        if self.pops_front(now) {
            1 + (DedupWindow { entries: self.entries.drop_first() }).pop_count(now)
        } else {
            0
        }
    }

    /// The window after its stale and surplus entries left at time `now`.
    pub open spec fn pop_stale(self, now: u64) -> Self {
        DedupWindow { entries: self.entries.skip(self.pop_count(now) as int) }
    }

    /// What is shown for the entries that leave at time `now`.
    pub open spec fn popped_notices(self, now: u64) -> Seq<Notice<P>> {
        last_notices(self.entries.take(self.pop_count(now) as int))
    }
}

/// The window of recent messages from Minecraft.
pub struct RecentFromMinecraft<P> {
    entries: VecDeque<RecentMessage<P>>,
}

impl<P> View for RecentFromMinecraft<P> {
    type V = DedupWindow<P>;

    closed spec fn view(&self) -> DedupWindow<P> {
        DedupWindow { entries: self.entries@.map_values(|entry: RecentMessage<P>| entry@) }
    }
}

/// Whether `n` is a power of two.
pub fn power_of_two(n: usize) -> (yes: bool)
    ensures
        yes == is_power_of_two(n as nat),
{
    let mut rest: usize = n;
    while rest > 1 && rest % 2 == 0
        invariant
            is_power_of_two(rest as nat) == is_power_of_two(n as nat),
        decreases rest,
    {
        rest = rest / 2;
    }
    rest == 1
}

/// The text for a message that was sent `sent_count` times: the message
/// itself for 1, and else the message followed by ` [x`, the count in
/// decimal, and `]`.
pub fn format_for_repeats(message: &str, sent_count: usize) -> (text: String)
    ensures
        text@ == repeat_text(message@, sent_count as nat),
{
    let mut text = message.to_owned();
    if sent_count == 1 {
        return text;
    }
    text.push(' ');
    text.push('[');
    text.push('x');
    push_decimal(&mut text, sent_count);
    text.push(']');
    assert(text@ =~= repeat_text(message@, sent_count as nat));
    text
}

impl<P> RecentFromMinecraft<P> {
    /// No two entries hold the same content, and every count is at least 1.
    pub open spec fn wf(&self) -> bool {
        self@.wf()
    }

    /// An empty window.
    pub fn new() -> (window: Self)
        ensures
            window@.entries == Seq::<Recent<P>>::empty(),
            window.wf(),
    {
        let window = RecentFromMinecraft { entries: VecDeque::new() };
        assert(window@.entries =~= Seq::<Recent<P>>::empty());
        window
    }

    /// The number of entries.
    pub fn len(&self) -> (len: usize)
        ensures
            len == self@.entries.len(),
    {
        self.entries.len()
    }

    /// The entry at `index`, counted from the one seen longest ago.
    pub fn get(&self, index: usize) -> (entry: Option<&RecentMessage<P>>)
        ensures
            match entry {
                Some(e) => index < self@.entries.len() && e@ == self@.entries[index as int],
                None => index >= self@.entries.len(),
            },
    {
        if index < self.entries.len() {
            Some(&self.entries[index])
        } else {
            None
        }
    }

    fn find(&self, content: &String) -> (found: Option<usize>)
        ensures
            match found {
                Some(i) => self@.position(content@) == Some(i as int) && i < self.entries@.len(),
                None => self@.position(content@) is None,
            },
    {
        let mut i: usize = 0;
        while i < self.entries.len()
            invariant
                i <= self.entries@.len(),
                forall|j: int| 0 <= j < i ==> self@.contents()[j] != content@,
            decreases self.entries@.len() - i,
        {
            if self.entries[i].content == *content {
                proof {
                    assert(self@.contents()[i as int] == content@);
                    self@.contents().index_of_first_ensures(content@);
                }
                return Some(i);
            }
            i += 1;
        }
        proof {
            self@.contents().index_of_first_ensures(content@);
        }
        None
    }

    /// Takes in a message received at time `now`. A message that is new to
    /// the window gets an entry at the back and is shown as it is. A message
    /// that the window holds moves to the back with its count raised, and is
    /// shown with the count if the count is a power of two. The event carries
    /// a clone of `packet`; the window keeps `packet` itself.
    pub fn from_minecraft(&mut self, content: String, packet: P, now: u64) -> (event: Option<
        FromMinecraftEvent<P>,
    >) where P: Clone
        ensures
            final(self)@ == old(self)@.observe(content@, packet, now),
            old(self).wf() ==> final(self).wf(),
            match old(self)@.observe_text(content@) {
                Some(text) => event matches Some(e) && e.content@ == text && cloned(
                    packet,
                    e.packet,
                ),
                None => event is None,
            },
    {
        match self.find(&content) {
            Some(i) => {
                let previous: usize = self.entries[i].sent_count;
                let sent_count: usize = if previous < usize::MAX {
                    previous + 1
                } else {
                    previous
                };
                let event = if power_of_two(sent_count) {
                    Some(
                        FromMinecraftEvent {
                            content: format_for_repeats(content.as_str(), sent_count),
                            packet: packet.clone(),
                        },
                    )
                } else {
                    None
                };
                self.entries.remove(i);
                self.entries.push_back(RecentMessage { content, packet, sent_count, sent_at: now });
                proof {
                    let before = old(self)@;
                    let after = before.observe(content@, packet, now);
                    assert(self@.entries =~= after.entries);
                    if before.wf() {
                        law_observe_keeps_contents_distinct(before, content@, packet, now);
                    }
                }
                event
            },
            None => {
                let event = FromMinecraftEvent { content: content.clone(), packet: packet.clone() };
                self.entries.push_back(
                    RecentMessage { content, packet, sent_count: 1, sent_at: now },
                );
                proof {
                    let before = old(self)@;
                    let after = before.observe(content@, packet, now);
                    assert(self@.entries =~= after.entries);
                    if before.wf() {
                        law_observe_keeps_contents_distinct(before, content@, packet, now);
                    }
                }
                Some(event)
            },
        }
    }

    /// Pops entries off the front of the window while it holds more than 5 or
    /// its front entry is stale at time `now`. Each entry that leaves with a
    /// count above 2 that is no power of two is shown one last time, with its
    /// own packet. Every round pops an entry, so there are no more rounds than
    /// the window has entries.
    pub fn pop_no_longer_recent_messages(&mut self, now: u64) -> (events: Vec<
        FromMinecraftEvent<P>,
    >)
        ensures
            final(self)@ == old(self)@.pop_stale(now),
            events_view(events@) == old(self)@.popped_notices(now),
            final(self)@.entries.len() <= SOFT_MAX,
            !final(self)@.pops_front(now),
            old(self).wf() ==> final(self).wf(),
    {
        let mut events: Vec<FromMinecraftEvent<P>> = Vec::new();
        let ghost before = self@;
        let ghost mut popped: int = 0;
        assert(self@.entries =~= before.entries.skip(0));
        assert(events_view(events@) =~= last_notices(before.entries.take(0)));
        while self.entries.len() > 0
            invariant
                0 <= popped <= before.entries.len(),
                self@.entries == before.entries.skip(popped),
                popped + self@.pop_count(now) == before.pop_count(now),
                events_view(events@) == last_notices(before.entries.take(popped)),
            ensures
                0 <= popped <= before.entries.len(),
                self@.entries == before.entries.skip(popped),
                popped == before.pop_count(now),
                events_view(events@) == last_notices(before.entries.take(popped)),
                !self@.pops_front(now),
            decreases self.entries@.len(),
        {
            let front = &self.entries[0];
            let max_wait_time: u64 = if front.sent_count > 32 {
                16
            } else if front.sent_count > 16 {
                8
            } else {
                2
            };
            let waited_enough = now >= front.sent_at && now - front.sent_at > max_wait_time;
            assert(waited_enough == self@.entries[0].waited_enough(now));
            if self.entries.len() <= SOFT_MAX && !waited_enough {
                break;
            }
            let ghost current = self@;
            match self.entries.pop_front() {
                Some(front_message) => {
                    proof {
                        assert(self@.entries =~= current.entries.drop_first());
                        assert(self@.entries =~= before.entries.skip(popped + 1));
                        assert(before.entries.take(popped + 1).drop_last()
                            =~= before.entries.take(popped));
                        assert(before.entries.take(popped + 1).last() == front_message@);
                    }
                    // a power of 2 was shown when it was reached
                    if front_message.sent_count > 2 && !power_of_two(front_message.sent_count) {
                        let content = format_for_repeats(
                            front_message.content.as_str(),
                            front_message.sent_count,
                        );
                        let ghost shown = events_view(events@);
                        events.push(FromMinecraftEvent { content, packet: front_message.packet });
                        assert(events_view(events@) =~= shown.push(front_message@.last_notice()));
                    }
                    proof {
                        popped = popped + 1;
                    }
                },
                None => {},
            }
        }
        proof {
            if before.wf() {
                assert forall|a: int, b: int| 0 <= a < b < self@.entries.len() implies self@.entries[a].content
                    != self@.entries[b].content by {
                    assert(self@.entries[a] == before.entries[a + popped]);
                    assert(self@.entries[b] == before.entries[b + popped]);
                }
            }
        }
        events
    }
}

} // verus!
