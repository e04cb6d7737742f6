//! Message identifiers: non-zero `u32` values handed out in increasing order,
//! skipping zero when the counter wraps.

use vstd::prelude::*;
use vstd::arithmetic::div_mod::{lemma_mod_equivalence, lemma_small_mod};

verus! {

/// The identifier that a counter standing at `counter` gives out next.
pub open spec fn issued(counter: u32) -> u32 {
    if counter == 0 {
        1
    } else {
        counter
    }
}

/// Where the counter stands once `issued(counter)` has been given out.
pub open spec fn advanced(counter: u32) -> u32 {
    if issued(counter) == u32::MAX {
        0
    } else {
        (issued(counter) + 1) as u32
    }
}

/// The counter after `n` identifiers have been given out, starting at `counter`.
pub open spec fn counter_after(counter: u32, n: nat) -> u32
    decreases n,
{
    if n == 0 {
        counter
    } else {
        advanced(counter_after(counter, (n - 1) as nat))
    }
}

/// The identifier given out by call number `n` (counted from zero) on an
/// allocator whose counter stood at `counter` before the first of them.
pub open spec fn nth_id(counter: u32, n: nat) -> u32 {
    issued(counter_after(counter, n))
}

/// Source of message identifiers.
#[derive(Debug)]
pub struct MsgIdAllocator {
    counter: u32,
}

impl MsgIdAllocator {
    /// The raw counter: the value the next call looks at first.
    pub closed spec fn counter(&self) -> u32 {
        self.counter
    }

    /// An allocator whose first identifier is 1.
    pub fn new() -> (alloc: Self)
        ensures
            alloc.counter() == 1,
    {
        MsgIdAllocator { counter: 1 }
    }

    /// Where the raw counter stands.
    pub fn raw(&self) -> (counter: u32)
        ensures
            counter == self.counter(),
    {
        self.counter
    }

    /// An allocator resumed at a given raw counter value.
    pub fn starting_at(counter: u32) -> (alloc: Self)
        ensures
            alloc.counter() == counter,
    {
        MsgIdAllocator { counter }
    }
}

/// Gives out the next identifier. It is never zero; the one after `u32::MAX` is 1.
pub fn next_msg_id(alloc: &mut MsgIdAllocator) -> (id: u32)
    ensures
        id != 0,
        id == issued(old(alloc).counter()),
        final(alloc).counter() == advanced(old(alloc).counter()),
{
    loop
        invariant
            alloc.counter == old(alloc).counter || (old(alloc).counter == 0 && alloc.counter == 1),
        decreases (if alloc.counter == 0 { 1int } else { 0int }),
    {
        let id: u32 = alloc.counter;
        alloc.counter = alloc.counter.wrapping_add(1);
        if id != 0 {
            return id;
        }
    }
}

/// Closed form of the `n`-th identifier: identifiers walk the cycle
/// `1, 2, .., u32::MAX` from the first one given out.
pub proof fn lemma_nth_id_closed_form(counter: u32, n: nat)
    ensures
        nth_id(counter, n) == ((issued(counter) - 1 + n) % (u32::MAX as int)) + 1,
        nth_id(counter, n) != 0,
    decreases n,
{
    let m = u32::MAX as int;
    if n == 0 {
        lemma_small_mod((issued(counter) - 1) as nat, m as nat);
    } else {
        lemma_nth_id_closed_form(counter, (n - 1) as nat);
        let prev = nth_id(counter, (n - 1) as nat);
        let a = issued(counter) - 1 + (n - 1);
        assert(prev == a % m + 1);
        assert(nth_id(counter, n) == issued(advanced(counter_after(counter, (n - 1) as nat))));
        assert(issued(counter_after(counter, (n - 1) as nat)) == prev);
        if prev == u32::MAX {
            assert(a % m == m - 1);
            assert(nth_id(counter, n) == 1);
            assert((a + 1) % m == 0) by (nonlinear_arith)
                requires
                    a % m == m - 1,
                    m > 0,
                    a >= 0,
            ;
        } else {
            assert(nth_id(counter, n) == prev + 1);
            assert((a + 1) % m == a % m + 1) by (nonlinear_arith)
                requires
                    a % m < m - 1,
                    m > 0,
                    a >= 0,
            ;
        }
    }
}

/// No identifier repeats among any `u32::MAX` consecutive calls: calls number
/// `i` and `j` give different identifiers whenever `0 < j - i < u32::MAX`.
pub proof fn lemma_ids_distinct(counter: u32, i: nat, j: nat)
    requires
        i < j,
        j - i < u32::MAX,
    ensures
        nth_id(counter, i) != nth_id(counter, j),
{
    let m = u32::MAX as int;
    let a = issued(counter) - 1;
    lemma_nth_id_closed_form(counter, i);
    lemma_nth_id_closed_form(counter, j);
    // the two places in the cycle differ, since their distance is no multiple of its length
    lemma_small_mod((j - i) as nat, m as nat);
    assert(((a + j) - (a + i)) % m != 0);
    lemma_mod_equivalence(a + j, a + i, m);
}

/// Each identifier is one more than the one before it, except that
/// `u32::MAX` is followed by 1.
pub proof fn lemma_ids_increase(counter: u32, n: nat)
    ensures
        nth_id(counter, n + 1) == if nth_id(counter, n) == u32::MAX {
            1u32
        } else {
            (nth_id(counter, n) + 1) as u32
        },
{
    assert(counter_after(counter, n + 1) == advanced(counter_after(counter, n)));
}

} // verus!
