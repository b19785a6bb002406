//! What holds of the window of recent messages and of the batcher.

use vstd::prelude::*;
use vstd::arithmetic::power2::{lemma2_to64, lemma_pow2_pos, lemma_pow2_unfold, pow2};
use crate::discord_bridge::{batch_count, fits, joined, BatchState, MAX_PAYLOAD_BYTES};
use crate::recent::{is_power_of_two, DedupWindow, SOFT_MAX};
use crate::text::utf8_len;

verus! {

/// Once the stale and surplus entries have left, the window holds at most 5
/// entries, and its front entry, if there is one, is not stale. The entries
/// that stay are the back of the window, in their order.
pub proof fn law_window_is_bounded_after_pop<P>(window: DedupWindow<P>, now: u64)
    ensures
        window.pop_count(now) <= window.entries.len(),
        window.pop_stale(now).entries.len() <= SOFT_MAX,
        !window.pop_stale(now).pops_front(now),
        window.entries.take(window.pop_count(now) as int) + window.pop_stale(now).entries
            == window.entries,
    decreases window.entries.len(),
{
    if window.pops_front(now) {
        let rest = DedupWindow { entries: window.entries.drop_first() };
        law_window_is_bounded_after_pop(rest, now);
        assert(window.pop_stale(now).entries =~= rest.pop_stale(now).entries);
    } else {
        assert(window.pop_stale(now).entries =~= window.entries);
    }
    assert(window.entries.take(window.pop_count(now) as int) + window.pop_stale(now).entries
        =~= window.entries);
}

/// A message adds at most one entry to the window, and none if the window
/// holds its content. So a window that was popped holds at most 5 entries
/// plus one for each new content seen since.
pub proof fn law_observe_adds_at_most_one<P>(
    window: DedupWindow<P>,
    content: Seq<char>,
    packet: P,
    now: u64,
)
    ensures
        window.observe(content, packet, now).entries.len() == if window.position(content) is Some {
            window.entries.len()
        } else {
            window.entries.len() + 1
        },
{
    window.contents().index_of_first_ensures(content);
}

/// A message keeps the contents of the window distinct and the counts at 1
/// or above.
pub proof fn law_observe_keeps_contents_distinct<P>(
    window: DedupWindow<P>,
    content: Seq<char>,
    packet: P,
    now: u64,
)
    requires
        window.wf(),
    ensures
        window.observe(content, packet, now).wf(),
{
    let after = window.observe(content, packet, now);
    window.contents().index_of_first_ensures(content);
    match window.position(content) {
        Some(i) => {
            assert(window.contents()[i] == window.entries[i].content);
            assert forall|a: int, b: int| 0 <= a < b < after.entries.len() implies after.entries[a].content
                != after.entries[b].content by {
                let a0 = if a < i { a } else { a + 1 };
                assert(after.entries[a] == window.entries[a0]);
                if b < after.entries.len() - 1 {
                    let b0 = if b < i { b } else { b + 1 };
                    assert(after.entries[b] == window.entries[b0]);
                }
            }
            assert forall|a: int| 0 <= a < after.entries.len() implies after.entries[a].sent_count
                >= 1 by {
                if a < after.entries.len() - 1 {
                    let a0 = if a < i { a } else { a + 1 };
                    assert(after.entries[a] == window.entries[a0]);
                }
            }
        },
        None => {
            assert forall|a: int, b: int| 0 <= a < b < after.entries.len() implies after.entries[a].content
                != after.entries[b].content by {
                assert(after.entries[a] == window.entries[a]);
                assert(window.contents()[a] == window.entries[a].content);
                if b < after.entries.len() - 1 {
                    assert(after.entries[b] == window.entries[b]);
                }
            }
        },
    }
}

/// The powers of two are the numbers 2 to the `k` for some `k`.
pub proof fn law_power_of_two_is_pow2(n: nat)
    ensures
        is_power_of_two(n) <==> exists|k: nat| pow2(k) == n,
    decreases n,
{
    lemma2_to64();
    if n == 0 {
        assert forall|k: nat| pow2(k) != 0 by {
            lemma_pow2_pos(k);
        }
    } else if n == 1 {
        assert(pow2(0) == 1);
    } else {
        law_power_of_two_is_pow2(n / 2);
        if is_power_of_two(n) {
            let k = choose|k: nat| pow2(k) == n / 2;
            lemma_pow2_unfold(k + 1);
            assert(pow2(k + 1) == n);
        }
        if exists|k: nat| pow2(k) == n {
            let k = choose|k: nat| pow2(k) == n;
            assert(k > 0);
            lemma_pow2_unfold(k);
            assert(pow2((k - 1) as nat) == n / 2);
        }
    }
}

/// Joined lines do not get shorter when a line is added.
pub proof fn lemma_joined_grows(queue: Seq<Seq<char>>, count: nat)
    requires
        count < queue.len(),
    ensures
        utf8_len(joined(queue.take(count as int))) <= utf8_len(joined(queue.take(count + 1 as int))),
{
    crate::discord_bridge::lemma_joined_len(queue, count);
    if count == 0 {
        assert(queue.take(0) =~= Seq::<Seq<char>>::empty());
        assert(utf8_len(Seq::<char>::empty()) == 0);
    }
}

/// If the first `more` lines fit into a message, so do the first `fewer`.
pub proof fn lemma_fits_is_monotonic(queue: Seq<Seq<char>>, fewer: nat, more: nat)
    requires
        fewer <= more <= queue.len(),
        fits(queue.take(more as int)),
    ensures
        fits(queue.take(fewer as int)),
    decreases more - fewer,
{
    if fewer < more {
        lemma_joined_grows(queue, (more - 1) as nat);
        lemma_fits_is_monotonic(queue, fewer, (more - 1) as nat);
    }
}

/// What the greedy count from `taken` on returns.
pub proof fn lemma_batch_count(queue: Seq<Seq<char>>, taken: nat)
    requires
        taken <= queue.len(),
        fits(queue.take(taken as int)),
    ensures
        taken <= batch_count(queue, taken) <= queue.len(),
        fits(queue.take(batch_count(queue, taken) as int)),
        batch_count(queue, taken) < queue.len() ==> !fits(
            queue.take(batch_count(queue, taken) + 1 as int),
        ),
    decreases queue.len() - taken,
{
    if taken < queue.len() && fits(queue.take(taken + 1 as int)) {
        lemma_batch_count(queue, taken + 1);
    }
}

/// A flush posts the longest front of the queue that fits into one message:
/// the lines it posts take at most 1000 bytes when joined, one line more
/// would take more, and so would any greater number of lines.
pub proof fn law_flush_posts_longest_fit(batch: BatchState, more: nat)
    requires
        !batch.rate_limited(),
        batch.flush_count() < more <= batch.queue.len(),
    ensures
        batch.flush_count() <= batch.queue.len(),
        utf8_len(joined(batch.queue.take(batch.flush_count() as int))) <= MAX_PAYLOAD_BYTES,
        !fits(batch.queue.take(more as int)),
{
    assert(batch.queue.take(0) =~= Seq::<Seq<char>>::empty());
    assert(utf8_len(Seq::<char>::empty()) == 0);
    lemma_batch_count(batch.queue, 0);
    if fits(batch.queue.take(more as int)) {
        lemma_fits_is_monotonic(batch.queue, batch.flush_count() + 1, more);
    }
}

/// The message that a flush posts takes at most 1000 bytes, and a flush keeps
/// the lines that it does not post, in their order.
pub proof fn law_flush_keeps_the_rest(batch: BatchState)
    ensures
        batch.flush_count() <= batch.queue.len(),
        batch.payload() matches Some(text) ==> utf8_len(text) <= MAX_PAYLOAD_BYTES,
        batch.queue.take(batch.flush_count() as int) + batch.flush().queue == batch.queue,
{
    assert(batch.queue.take(0) =~= Seq::<Seq<char>>::empty());
    assert(utf8_len(Seq::<char>::empty()) == 0);
    lemma_batch_count(batch.queue, 0);
    assert(batch.queue.take(batch.flush_count() as int) + batch.flush().queue =~= batch.queue);
}

} // verus!
