//! The outbound throttle of one game identity.
//!
//! Lines bound for the game wait in a FIFO queue. A spam credit between 0 and
//! 100 counts how much of the server's tolerance is used up: it decays by one
//! per tick, and every line sent costs 20. A tick sends as many lines from
//! the front of the queue as the credit leaves room for.

use vstd::prelude::*;

verus! {

/// The credit never exceeds this bound.
pub const CREDIT_LIMIT: usize = 100;

/// What one sent line adds to the credit.
pub const LINE_COST: usize = 20;

/// A line that waits to be sent to the game.
pub struct PendingOutboundLine {
    pub content: String,
    pub enqueued_at: u64,
}

/// The model of a [`PendingOutboundLine`].
pub struct PendingLine {
    pub content: Seq<char>,
    pub enqueued_at: u64,
}

impl View for PendingOutboundLine {
    type V = PendingLine;

    open spec fn view(&self) -> PendingLine {
        PendingLine { content: self.content@, enqueued_at: self.enqueued_at }
    }
}

/// The models of a sequence of lines, in the same order.
pub open spec fn lines_view(lines: Seq<PendingOutboundLine>) -> Seq<PendingLine> {
    lines.map_values(|line: PendingOutboundLine| line@)
}

/// The model of the throttle of one identity.
pub struct ThrottleState {
    pub queue: Seq<PendingLine>,
    pub spam_credit: nat,
}

impl ThrottleState {
    /// The credit is within its bound.
    pub open spec fn wf(self) -> bool {
        self.spam_credit <= CREDIT_LIMIT
    }

    /// No line waits and no credit is used.
    pub open spec fn empty() -> Self {
        ThrottleState { queue: Seq::empty(), spam_credit: 0 }
    }

    /// The state after `line` joined the back of the queue.
    pub open spec fn enqueue(self, line: PendingLine) -> Self {
        ThrottleState { queue: self.queue.push(line), spam_credit: self.spam_credit }
    }

    /// The credit after one tick's decay.
    pub open spec fn decayed_credit(self) -> nat {
        if self.spam_credit > 0 {
            (self.spam_credit - 1) as nat
        } else {
            0
        }
    }

    /// How many lines the decayed credit leaves room for.
    pub open spec fn max_drain(self) -> nat {
        ((CREDIT_LIMIT - self.decayed_credit()) / LINE_COST as int) as nat
    }

    /// How many lines the next tick sends.
    pub open spec fn drain_count(self) -> nat {
        if self.max_drain() <= self.queue.len() {
            self.max_drain()
        } else {
            self.queue.len()
        }
    }

    /// The lines that the next tick sends, oldest first.
    pub open spec fn drained(self) -> Seq<PendingLine> {
        self.queue.take(self.drain_count() as int)
    }

    /// The state after the next tick.
    pub open spec fn tick(self) -> Self {
        ThrottleState {
            queue: self.queue.skip(self.drain_count() as int),
            spam_credit: (self.decayed_credit() + self.drain_count() * LINE_COST) as nat,
        }
    }
}

/// The throttle of one identity: its queue and its spam credit.
pub struct AvoidChatKick {
    queued_messages: Vec<PendingOutboundLine>,
    chat_spam_tick_count: usize,
}

impl View for AvoidChatKick {
    type V = ThrottleState;

    closed spec fn view(&self) -> ThrottleState {
        ThrottleState {
            queue: lines_view(self.queued_messages@),
            spam_credit: self.chat_spam_tick_count as nat,
        }
    }
}

impl AvoidChatKick {
    /// The credit is within its bound.
    pub open spec fn wf(&self) -> bool {
        self@.wf()
    }

    /// A throttle with an empty queue and no credit used.
    pub fn new() -> (state: Self)
        ensures
            state@ == ThrottleState::empty(),
            state.wf(),
    {
        let state = AvoidChatKick { queued_messages: Vec::new(), chat_spam_tick_count: 0 };
        assert(state@.queue =~= Seq::empty());
        state
    }

    /// The lines that wait, oldest first.
    pub fn queued_messages(&self) -> (lines: &Vec<PendingOutboundLine>)
        ensures
            lines_view(lines@) == self@.queue,
    {
        &self.queued_messages
    }

    /// The spam credit.
    pub fn chat_spam_tick_count(&self) -> (credit: usize)
        ensures
            credit == self@.spam_credit,
    {
        self.chat_spam_tick_count
    }

    /// Appends `line` to the queue. The credit does not change.
    pub fn enqueue(&mut self, line: PendingOutboundLine)
        ensures
            final(self)@ == old(self)@.enqueue(line@),
    {
        self.queued_messages.push(line);
        assert(self@.queue =~= old(self)@.queue.push(line@));
    }

    /// Runs one tick: the credit decays by one unless it is 0, then as many
    /// lines as the credit leaves room for leave the front of the queue, each
    /// for a cost of 20. The lines are returned oldest first, to be sent as
    /// they are.
    pub fn tick(&mut self) -> (drained: Vec<PendingOutboundLine>)
        requires
            old(self).wf(),
        ensures
            final(self)@ == old(self)@.tick(),
            lines_view(drained@) == old(self)@.drained(),
            final(self).wf(),
    {
        if self.chat_spam_tick_count > 0 {
            self.chat_spam_tick_count -= 1;
        }
        let max_drain: usize = (CREDIT_LIMIT - self.chat_spam_tick_count) / LINE_COST;
        let queued: usize = self.queued_messages.len();
        let count: usize = if max_drain <= queued {
            max_drain
        } else {
            queued
        };
        assert(count == old(self)@.drain_count());
        self.chat_spam_tick_count += count * LINE_COST;
        let mut lines = self.queued_messages.split_off(count);
        std::mem::swap(&mut self.queued_messages, &mut lines);
        assert(self@.queue =~= old(self)@.queue.skip(count as int));
        assert(lines_view(lines@) =~= old(self)@.queue.take(count as int));
        lines
    }
}

} // verus!
