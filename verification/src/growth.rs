//! The growth policy followed over a run of appends, and what it costs.

use crate::vector::{capacity_after_write, grown_capacity};
use vstd::arithmetic::power2::{lemma2_to64, lemma_pow2_unfold, pow2};
use vstd::prelude::*;

verus! {

/// Capacity of a container that started empty with `start` slots and had `n`
/// values appended one at a time.
pub open spec fn capacity_after_pushes_from(start: nat, n: nat) -> nat
    decreases n,
{
    if n == 0 {
        start
    } else {
        capacity_after_write((n - 1) as nat, capacity_after_pushes_from(start, (n - 1) as nat))
    }
}

/// Capacity of a container that started with no slot and no value and had `n`
/// values appended one at a time.
pub open spec fn capacity_after_pushes(n: nat) -> nat {
    capacity_after_pushes_from(0, n)
}

/// Number of times that container gained room in the course of those `n`
/// appends.
pub open spec fn growths_after_pushes(n: nat) -> nat
    decreases n,
{
    if n == 0 {
        0
    } else if (n - 1) as nat == capacity_after_pushes((n - 1) as nat) {
        growths_after_pushes((n - 1) as nat) + 1
    } else {
        growths_after_pushes((n - 1) as nat)
    }
}

/// The first append takes the capacity from 0 to 4.
pub proof fn lemma_first_push_grows_to_four()
    ensures
        capacity_after_pushes(0) == 0,
        capacity_after_pushes(1) == 4,
        growths_after_pushes(1) == 1,
{
    reveal_with_fuel(capacity_after_pushes_from, 2);
    reveal_with_fuel(growths_after_pushes, 2);
}

/// An append changes the capacity only when the length has caught up with it,
/// and from 4 on every such change doubles it.
pub proof fn lemma_push_doubles_when_full(n: nat)
    requires
        n >= 1,
    ensures
        n < capacity_after_pushes(n) ==> capacity_after_pushes(n + 1) == capacity_after_pushes(n),
        n == capacity_after_pushes(n) ==> capacity_after_pushes(n + 1) == 2
            * capacity_after_pushes(n),
        n <= capacity_after_pushes(n),
{
    lemma_growth_law(n);
}

/// After `n >= 1` appends and `g` growths the capacity is `2 * 2^g`, that is
/// 4, 8, 16, ...; it holds all `n` values and, past the first four, is less
/// than twice their number. So `2^g <= n + 1`: the growths are logarithmic in
/// the number of appends.
pub proof fn lemma_growth_law(n: nat)
    requires
        n >= 1,
    ensures
        capacity_after_pushes(n) == 2 * pow2(growths_after_pushes(n)),
        growths_after_pushes(n) >= 1,
        n <= capacity_after_pushes(n),
        n <= 4 ==> capacity_after_pushes(n) == 4,
        n > 4 ==> capacity_after_pushes(n) < 2 * n,
        pow2(growths_after_pushes(n)) <= n + 1,
    decreases n,
{
    lemma2_to64();
    if n == 1 {
        lemma_first_push_grows_to_four();
    } else {
        let m = (n - 1) as nat;
        lemma_growth_law(m);
        let c = capacity_after_pushes(m);
        let g = growths_after_pushes(m);
        assert(capacity_after_pushes(n) == capacity_after_write(m, c));
        if m == c {
            assert(c >= 4);
            assert(capacity_after_pushes(n) == grown_capacity(c));
            assert(growths_after_pushes(n) == g + 1);
            lemma_pow2_unfold(g + 1);
            assert(pow2(g + 1) == 2 * pow2(g));
        } else {
            assert(growths_after_pushes(n) == g);
        }
    }
}


/// A container that starts empty with one slot has that one slot after its
/// first append and is, from the second append on, where a container that
/// started with none would be.
pub proof fn lemma_start_with_one_slot(n: nat)
    ensures
        n <= 1 ==> capacity_after_pushes_from(1, n) == 1,
        n >= 2 ==> capacity_after_pushes_from(1, n) == capacity_after_pushes(n),
        capacity_after_pushes_from(1, n) <= 2 * n + 2,
    decreases n,
{
    reveal_with_fuel(capacity_after_pushes_from, 3);
    if n >= 3 {
        lemma_start_with_one_slot((n - 1) as nat);
        lemma_growth_law(n);
    } else if n == 2 {
        lemma_growth_law(2);
    }
}


/// Appending never takes room away: the capacity after more appends is at
/// least the capacity after fewer.
pub proof fn lemma_capacity_never_shrinks(start: nat, fewer: nat, more: nat)
    requires
        fewer <= more,
    ensures
        capacity_after_pushes_from(start, fewer) <= capacity_after_pushes_from(start, more),
    decreases more,
{
    if fewer < more {
        lemma_capacity_never_shrinks(start, fewer, (more - 1) as nat);
    }
}

} // verus!
