use vstd::prelude::*;

verus! {

use crate::arena::ArenaModel;
use crate::arena::fits;
use crate::arena::lemma_pad_bounds;
use crate::arena::place_at;
use crate::arena::written;
use crate::double::DoubleModel;

/// A sequence of allocation requests, each a byte length with an alignment.
/// Well-formed: non-negative lengths, alignments of at least one byte.
pub open spec fn requests_wf(reqs: Seq<(int, int)>) -> bool {
    forall|i: int| 0 <= i < reqs.len() ==> (#[trigger] reqs[i]).0 >= 0 && reqs[i].1 >= 1
}

/// Where the cursor stands after every request in `reqs` has been placed in
/// turn, starting from cursor `top`: the cumulative size plus padding.
pub open spec fn end_cursor(top: int, reqs: Seq<(int, int)>) -> int
    decreases reqs.len(),
{
    if reqs.len() == 0 {
        top
    } else {
        end_cursor(place_at(top, reqs[0].1) + reqs[0].0, reqs.drop_first())
    }
}

/// Whether every request in `reqs`, made in turn from cursor `top`, fits
/// below capacity `cap`.
pub open spec fn all_fit(top: int, cap: int, reqs: Seq<(int, int)>) -> bool
    decreases reqs.len(),
{
    reqs.len() == 0 || (fits(top, cap, reqs[0].0, reqs[0].1) && all_fit(
        place_at(top, reqs[0].1) + reqs[0].0,
        cap,
        reqs.drop_first(),
    ))
}

/// The cursor never moves backwards over a request sequence.
pub proof fn lemma_end_cursor_monotone(top: int, reqs: Seq<(int, int)>)
    requires
        top >= 0,
        requests_wf(reqs),
    ensures
        end_cursor(top, reqs) >= top,
    decreases reqs.len(),
{
    if reqs.len() > 0 {
        lemma_pad_bounds(top, reqs[0].1);
        let next = place_at(top, reqs[0].1) + reqs[0].0;
        assert(requests_wf(reqs.drop_first())) by {
            assert forall|i: int|
                0 <= i < reqs.drop_first().len() implies (#[trigger] reqs.drop_first()[i]).0 >= 0
                && reqs.drop_first()[i].1 >= 1 by {
                assert(reqs.drop_first()[i] == reqs[i + 1]);
            }
        }
        lemma_end_cursor_monotone(next, reqs.drop_first());
    }
}

/// A sequence of allocations whose cumulative size plus padding stays within
/// the capacity all succeed, and the first sequence whose cumulative total
/// would exceed the capacity has a failing request: from any cursor, every
/// request fits exactly when the final cursor stays within capacity.
pub proof fn lemma_within_capacity_all_fit(top: int, cap: int, reqs: Seq<(int, int)>)
    requires
        0 <= top <= cap,
        requests_wf(reqs),
    ensures
        all_fit(top, cap, reqs) <==> end_cursor(top, reqs) <= cap,
    decreases reqs.len(),
{
    if reqs.len() > 0 {
        lemma_pad_bounds(top, reqs[0].1);
        let next = place_at(top, reqs[0].1) + reqs[0].0;
        assert(requests_wf(reqs.drop_first())) by {
            assert forall|i: int|
                0 <= i < reqs.drop_first().len() implies (#[trigger] reqs.drop_first()[i]).0 >= 0
                && reqs.drop_first()[i].1 >= 1 by {
                assert(reqs.drop_first()[i] == reqs[i + 1]);
            }
        }
        if fits(top, cap, reqs[0].0, reqs[0].1) {
            lemma_within_capacity_all_fit(next, cap, reqs.drop_first());
        } else {
            lemma_end_cursor_monotone(next, reqs.drop_first());
        }
    }
}

/// Two allocations made in turn return distinct handles: the second one's
/// region starts at or above the end of the first one's.
pub proof fn lemma_successive_allocations_disjoint(
    m: ArenaModel,
    d1: Seq<u8>,
    a1: int,
    a2: int,
)
    requires
        m.wf(),
        a1 >= 1,
        a2 >= 1,
    ensures
        ({
            let off1 = place_at(m.top, a1);
            let off2 = place_at(m.allocate(d1, a1).top, a2);
            off2 >= off1 + d1.len()
        }),
{
    lemma_pad_bounds(m.top, a1);
    lemma_pad_bounds(place_at(m.top, a1) + d1.len() as int, a2);
}

/// Round trip: a value allocated successfully dereferences to itself — the
/// bytes read back at the returned handle's region equal the bytes placed.
pub proof fn lemma_round_trip(m: ArenaModel, data: Seq<u8>, align: int)
    requires
        m.wf(),
        align >= 1,
        fits(m.top, m.cap(), data.len() as int, align),
    ensures
        ({
            let off = place_at(m.top, align);
            m.allocate(data, align).bytes.subrange(off, off + data.len() as int) == data
        }),
{
    lemma_pad_bounds(m.top, align);
    let off = place_at(m.top, align);
    let w = written(m.bytes, off, data);
    assert(w.subrange(off, off + data.len() as int) =~= data);
}

/// Clearing restores the full usable capacity: after `clear` the allocator
/// behaves as a fresh one of the same capacity, so a request sequence that
/// exactly fills the capacity succeeds again in full.
pub proof fn lemma_clear_restores_capacity(m: ArenaModel, reqs: Seq<(int, int)>)
    requires
        m.wf(),
        requests_wf(reqs),
    ensures
        m.cleared().top == 0 && m.cleared().cap() == m.cap(),
        end_cursor(0, reqs) <= m.cap() ==> all_fit(m.cleared().top, m.cleared().cap(), reqs),
{
    lemma_within_capacity_all_fit(0, m.cap(), reqs);
}

/// Stack rewind: shrinking to a watermark recorded at or above an earlier
/// allocation leaves that allocation's bytes in place — rewinding itself
/// overwrites nothing — and a new allocation placed after the rewind reuses
/// only the space above the watermark, so the earlier bytes still read back
/// unchanged.
pub proof fn lemma_rewind_preserves_earlier(
    m: ArenaModel,
    to: int,
    p_off: int,
    p_len: int,
    data: Seq<u8>,
    align: int,
)
    requires
        m.wf(),
        align >= 1,
        0 <= p_off,
        0 <= p_len,
        p_off + p_len <= to <= m.top,
    ensures
        ({
            let after_shrink = ArenaModel { bytes: m.bytes, top: to };
            let after_next = after_shrink.allocate(data, align);
            &&& after_shrink.bytes.subrange(p_off, p_off + p_len) == m.bytes.subrange(
                p_off,
                p_off + p_len,
            )
            &&& after_next.bytes.subrange(p_off, p_off + p_len) == m.bytes.subrange(
                p_off,
                p_off + p_len,
            )
        }),
{
    lemma_pad_bounds(to, align);
    let off = place_at(to, align);
    let w = written(m.bytes, off, data);
    assert(w.subrange(p_off, p_off + p_len) =~= m.bytes.subrange(p_off, p_off + p_len));
}

/// A pool whose free list holds at least `n` slots serves `n` consecutive
/// allocations, each popping the head of the remaining free list.
pub open spec fn pool_serves(free: Seq<int>, n: int) -> bool
    decreases n,
{
    n <= 0 || (free.len() > 0 && pool_serves(free.drop_first(), n - 1))
}

/// Pool reuse: allocating `n` items from a pool with `n` free slots — for
/// instance a pool of size `n` right after its `n` items were deallocated
/// in any order — succeeds `n` times over.
pub proof fn lemma_full_pool_reallocation(free: Seq<int>, n: int)
    requires
        n <= free.len(),
    ensures
        pool_serves(free, n),
    decreases n,
{
    if n > 0 {
        lemma_full_pool_reallocation(free.drop_first(), n - 1);
    }
}

/// The most recently freed slot is reused first: pushing `slot` onto the
/// free list and then popping the head yields `slot` and restores the list.
pub proof fn lemma_most_recently_freed_first(free: Seq<int>, slot: int)
    ensures
        (seq![slot] + free).len() > 0,
        (seq![slot] + free)[0] == slot,
        (seq![slot] + free).drop_first() == free,
{
    assert((seq![slot] + free).drop_first() =~= free);
}

/// Double buffering: after `swap` the buffer that was active is the
/// inactive one, wholly untouched, so handles into it stay readable; a
/// `clear` after the swap resets only the newly active buffer's cursor and
/// overwrites no bytes in either buffer.
pub proof fn lemma_swap_then_clear_preserves_prior(d: DoubleModel)
    requires
        d.wf(),
    ensures
        ({
            let after = d.swapped().cleared_active();
            &&& after.inactive() == d.active()
            &&& after.active().bytes == d.inactive().bytes
            &&& after.active().top == 0
        }),
{
}

} // verus!
