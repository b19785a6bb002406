//! What holds of every run of the outbound throttle.

use vstd::prelude::*;
use crate::avoid_kick::{drained_all, ChatRequest, OutboundThrottle, Session};
use crate::legal::legal_to_minecraft;
use crate::throttle::{PendingLine, ThrottleState, CREDIT_LIMIT, LINE_COST};

verus! {

/// One operation on a throttle.
pub enum ThrottleOp {
    Enqueue(PendingLine),
    Tick,
}

/// The state that one operation leaves.
pub open spec fn step(s: ThrottleState, op: ThrottleOp) -> ThrottleState {
    match op {
        ThrottleOp::Enqueue(line) => s.enqueue(line),
        ThrottleOp::Tick => s.tick(),
    }
}

/// The lines that one operation sends.
pub open spec fn sent_by(s: ThrottleState, op: ThrottleOp) -> Seq<PendingLine> {
    match op {
        ThrottleOp::Enqueue(_) => Seq::empty(),
        ThrottleOp::Tick => s.drained(),
    }
}

/// The state after the operations `ops`, applied to `s` in order.
pub open spec fn run(s: ThrottleState, ops: Seq<ThrottleOp>) -> ThrottleState
    decreases ops.len(),
{
    if ops.len() == 0 {
        s
    } else {
        step(run(s, ops.drop_last()), ops.last())
    }
}

/// All lines that the operations `ops` send when applied to `s`, in the order
/// in which they are sent.
pub open spec fn forwarded(s: ThrottleState, ops: Seq<ThrottleOp>) -> Seq<PendingLine>
    decreases ops.len(),
{
    if ops.len() == 0 {
        Seq::empty()
    } else {
        forwarded(s, ops.drop_last()) + sent_by(run(s, ops.drop_last()), ops.last())
    }
}

/// All lines that the operations `ops` enqueue, in order.
pub open spec fn enqueued(ops: Seq<ThrottleOp>) -> Seq<PendingLine>
    decreases ops.len(),
{
    if ops.len() == 0 {
        Seq::empty()
    } else {
        match ops.last() {
            ThrottleOp::Enqueue(line) => enqueued(ops.drop_last()).push(line),
            ThrottleOp::Tick => enqueued(ops.drop_last()),
        }
    }
}

/// `count` ticks in a row.
pub open spec fn ticks(count: nat) -> Seq<ThrottleOp> {
    Seq::new(count, |i: int| ThrottleOp::Tick)
}

/// The number of ticks after which the queue of `s` is surely empty.
pub open spec fn ticks_to_empty(s: ThrottleState) -> nat {
    if s.queue.len() == 0 {
        0
    } else if s.spam_credit <= CREDIT_LIMIT - LINE_COST + 1 {
        ((s.queue.len() - 1) * LINE_COST + 1) as nat
    } else {
        ((s.queue.len() - 1) * LINE_COST + s.spam_credit - (CREDIT_LIMIT - LINE_COST)) as nat
    }
}

/// The credit stays between 0 and 100 under every operation.
pub proof fn law_credit_stays_in_bounds(s: ThrottleState, op: ThrottleOp)
    requires
        s.wf(),
    ensures
        step(s, op).wf(),
        0 <= step(s, op).spam_credit <= 100,
{
}

/// The credit stays between 0 and 100 along every run.
pub proof fn law_credit_stays_in_bounds_along_run(s: ThrottleState, ops: Seq<ThrottleOp>)
    requires
        s.wf(),
    ensures
        run(s, ops).wf(),
    decreases ops.len(),
{
    if ops.len() > 0 {
        law_credit_stays_in_bounds_along_run(s, ops.drop_last());
    }
}

/// A tick sends the smaller of two numbers of lines: the length of the queue,
/// and a twentieth, rounded down, of what the credit lacks to 100 after its
/// decay. Those lines are the front of the queue, the rest stays in order, and
/// each line sent costs 20.
pub proof fn law_tick_drains_by_credit(s: ThrottleState)
    requires
        s.wf(),
    ensures
        ({
            let decay: int = if s.spam_credit > 0 { 1 } else { 0 };
            let room: int = (100 - s.spam_credit + decay) / 20;
            let count: int = if room <= s.queue.len() { room } else { s.queue.len() as int };
            &&& s.drained().len() == count
            &&& s.drained() + s.tick().queue == s.queue
            &&& s.tick().spam_credit == s.spam_credit - decay + 20 * count
        }),
{
    assert(s.drained() + s.tick().queue =~= s.queue);
}

/// No line is lost, doubled or reordered: at every moment the lines sent so
/// far, followed by the lines that still wait, are the lines that waited at
/// the start followed by the lines enqueued since.
pub proof fn law_no_silent_loss(s: ThrottleState, ops: Seq<ThrottleOp>)
    ensures
        forwarded(s, ops) + run(s, ops).queue == s.queue + enqueued(ops),
    decreases ops.len(),
{
    if ops.len() == 0 {
        assert(forwarded(s, ops) + run(s, ops).queue =~= s.queue + enqueued(ops));
    } else {
        let before = run(s, ops.drop_last());
        law_no_silent_loss(s, ops.drop_last());
        match ops.last() {
            ThrottleOp::Enqueue(line) => {
                assert(forwarded(s, ops) + run(s, ops).queue =~= (forwarded(s, ops.drop_last())
                    + before.queue).push(line));
                assert(s.queue + enqueued(ops) =~= (s.queue + enqueued(ops.drop_last())).push(
                    line,
                ));
            },
            ThrottleOp::Tick => {
                assert(before.drained() + before.tick().queue =~= before.queue);
                assert(forwarded(s, ops) + run(s, ops).queue =~= forwarded(s, ops.drop_last()) + (
                before.drained() + before.tick().queue));
            },
        }
    }
}

/// A tick brings a state one tick nearer to an empty queue.
pub proof fn lemma_tick_makes_progress(s: ThrottleState)
    requires
        s.wf(),
    ensures
        s.tick().wf(),
        ticks_to_empty(s) > 0 ==> ticks_to_empty(s.tick()) < ticks_to_empty(s),
        ticks_to_empty(s) == 0 ==> ticks_to_empty(s.tick()) == 0,
        ticks_to_empty(s) <= LINE_COST * s.queue.len(),
{
}

/// Ticks enqueue nothing.
pub proof fn lemma_ticks_enqueue_nothing(ops: Seq<ThrottleOp>, count: nat)
    ensures
        enqueued(ops + ticks(count)) == enqueued(ops),
    decreases count,
{
    if count == 0 {
        assert(ops + ticks(count) =~= ops);
    } else {
        let all = ops + ticks(count);
        assert(all.drop_last() =~= ops + ticks((count - 1) as nat));
        lemma_ticks_enqueue_nothing(ops, (count - 1) as nat);
    }
}

/// After `count` further ticks a state is `count` ticks nearer to an empty
/// queue.
pub proof fn lemma_ticks_make_progress(s: ThrottleState, ops: Seq<ThrottleOp>, count: nat)
    requires
        s.wf(),
    ensures
        run(s, ops + ticks(count)).wf(),
        ticks_to_empty(run(s, ops + ticks(count))) + count <= ticks_to_empty(run(s, ops))
            || ticks_to_empty(run(s, ops + ticks(count))) == 0,
    decreases count,
{
    if count == 0 {
        assert(ops + ticks(count) =~= ops);
        law_credit_stays_in_bounds_along_run(s, ops);
    } else {
        let all = ops + ticks(count);
        assert(all.drop_last() =~= ops + ticks((count - 1) as nat));
        lemma_ticks_make_progress(s, ops, (count - 1) as nat);
        lemma_tick_makes_progress(run(s, all.drop_last()));
    }
}

/// Every line is sent in the end: when a run is followed by 20 ticks for each
/// line that still waits, the queue is empty, and the lines sent are exactly
/// the lines that waited at the start followed by the lines enqueued, in that
/// order.
pub proof fn law_every_line_is_forwarded(s: ThrottleState, ops: Seq<ThrottleOp>, count: nat)
    requires
        s.wf(),
        count >= 20 * run(s, ops).queue.len(),
    ensures
        run(s, ops + ticks(count)).queue.len() == 0,
        forwarded(s, ops + ticks(count)) == s.queue + enqueued(ops),
{
    let all = ops + ticks(count);
    law_credit_stays_in_bounds_along_run(s, ops);
    lemma_tick_makes_progress(run(s, ops));
    lemma_ticks_make_progress(s, ops, count);
    assert(ticks_to_empty(run(s, all)) == 0);
    assert(run(s, all).queue.len() == 0);
    law_no_silent_loss(s, all);
    lemma_ticks_enqueue_nothing(ops, count);
    assert(forwarded(s, all) + run(s, all).queue =~= forwarded(s, all));
}

/// Every request that a session releases is legal to send, and the session
/// stays well formed.
pub proof fn lemma_session_releases_legal(session: Session)
    requires
        session.wf(),
    ensures
        session.tick().wf(),
        forall|k: int|
            0 <= k < session.drained().len() ==> legal_to_minecraft(
                (#[trigger] session.drained()[k]).content,
            ),
{
    let after = session.tick();
    assert forall|k: int| 0 <= k < after.throttle.queue.len() implies legal_to_minecraft(
        #[trigger] after.throttle.queue[k].content,
    ) by {
        assert(after.throttle.queue[k] == session.throttle.queue[k
            + session.throttle.drain_count()]);
    }
    assert forall|k: int| 0 <= k < session.drained().len() implies legal_to_minecraft(
        (#[trigger] session.drained()[k]).content,
    ) by {
        assert(session.drained()[k].content == session.throttle.queue[k].content);
    }
}

/// Nothing illegal is ever sent: every request that a tick of all throttles
/// releases is legal to send, and the throttles stay well formed.
pub proof fn law_released_requests_are_legal(throttle: OutboundThrottle)
    requires
        throttle.wf(),
    ensures
        throttle.tick_all().wf(),
        forall|k: int|
            0 <= k < drained_all(throttle.sessions).len() ==> legal_to_minecraft(
                (#[trigger] drained_all(throttle.sessions)[k]).content,
            ),
    decreases throttle.sessions.len(),
{
    let after = throttle.tick_all();
    assert forall|i: int| 0 <= i < after.sessions.len() implies (#[trigger] after.sessions[i]).wf() by {
        assert(throttle.sessions[i].wf());
        lemma_session_releases_legal(throttle.sessions[i]);
    }
    if throttle.sessions.len() > 0 {
        let front = OutboundThrottle { sessions: throttle.sessions.drop_last() };
        assert forall|i: int| 0 <= i < front.sessions.len() implies (#[trigger] front.sessions[i]).wf() by {
            assert(throttle.sessions[i].wf());
        }
        law_released_requests_are_legal(front);
        let last = throttle.sessions.last();
        assert(last.wf());
        lemma_session_releases_legal(last);
        let released: Seq<ChatRequest> = drained_all(throttle.sessions);
        assert forall|k: int| 0 <= k < released.len() implies legal_to_minecraft(
            (#[trigger] released[k]).content,
        ) by {
            let first = drained_all(front.sessions);
            if k < first.len() {
                assert(released[k] == first[k]);
            } else {
                assert(released[k] == last.drained()[k - first.len()]);
            }
        }
    }
}

} // verus!
