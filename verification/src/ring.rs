//! Index arithmetic for ring buffers whose slot count is a power of two.
use vstd::arithmetic::power2::{lemma2_to64, lemma_pow2_strictly_increases, lemma_pow2_unfold, pow2};
use vstd::bits::{lemma_usize_low_bits_mask_is_mod, low_bits_mask};
use vstd::prelude::*;

verus! {

/// The largest slot count a ring may have.
pub const MAX_SLOTS: usize = 1073741824;

/// `n` is a power of two no larger than [`MAX_SLOTS`].
pub open spec fn is_slot_count(n: int) -> bool {
    exists|k: nat| k <= 30 && n == #[trigger] pow2(k)
}

/// A slot count is positive and bounded.
pub proof fn lemma_slot_count_bounds(n: int)
    requires
        is_slot_count(n),
    ensures
        1 <= n <= MAX_SLOTS,
{
    let k = choose|k: nat| k <= 30 && n == #[trigger] pow2(k);
    lemma2_to64();
    if k < 30 {
        lemma_pow2_strictly_increases(k, 30);
    }
    if k > 0 {
        lemma_pow2_strictly_increases(0, k);
    }
}

/// The first of `from`, twice `from`, four times `from` and so on that is at least `n`.
pub open spec fn doubled_up_to(n: nat, from: nat) -> nat
    decreases
        (if n > from {
            n - from
        } else {
            0
        }),
{
    if from >= n || from == 0 {
        from
    } else {
        doubled_up_to(n, 2 * from)
    }
}

/// The smallest power of two that is at least `n`.
pub open spec fn round_up(n: nat) -> nat {
    doubled_up_to(n, 1)
}

/// The smallest power of two that is at least `n`.
pub fn next_power_of_two(n: usize) -> (p: usize)
    requires
        n <= MAX_SLOTS,
    ensures
        p == round_up(n as nat),
        is_slot_count(p as int),
        n <= p,
        n <= 1 ==> p == 1,
        n > 1 ==> p / 2 < n,
{
    let mut p: usize = 1;
    let ghost mut k: nat = 0;
    proof {
        lemma2_to64();
    }
    while p < n
        invariant
            n <= MAX_SLOTS,
            k <= 30,
            p == pow2(k),
            p >= 1,
            doubled_up_to(n as nat, p as nat) == round_up(n as nat),
            p > 1 ==> p / 2 < n,
            pow2(30) == MAX_SLOTS,
        decreases MAX_SLOTS - p,
    {
        proof {
            if k >= 30 {
                if k > 30 {
                    lemma_pow2_strictly_increases(30, k);
                }
                assert(false);
            }
            lemma_pow2_unfold(k + 1);
            if k + 1 < 30 {
                lemma_pow2_strictly_increases(k + 1, 30);
            }
            k = k + 1;
        }
        p = p * 2;
    }
    p
}

/// Tells whether `n` can be the slot count of a ring.
pub fn is_power_of_two(n: usize) -> (b: bool)
    ensures
        b == is_slot_count(n as int),
{
    if n == 0 || n > MAX_SLOTS {
        proof {
            if is_slot_count(n as int) {
                lemma_slot_count_bounds(n as int);
            }
        }
        false
    } else {
        let p = next_power_of_two(n);
        proof {
            if is_slot_count(n as int) {
                lemma_between_powers(p as int, n as int);
            }
        }
        p == n
    }
}

/// No power of two lies strictly between half a power of two and that power.
proof fn lemma_between_powers(p: int, n: int)
    requires
        is_slot_count(p),
        is_slot_count(n),
    ensures
        n <= p / 2 || n >= p,
{
    let a = choose|k: nat| k <= 30 && p == #[trigger] pow2(k);
    let b = choose|k: nat| k <= 30 && n == #[trigger] pow2(k);
    if b >= a {
        if b > a {
            lemma_pow2_strictly_increases(a, b);
        }
    } else {
        lemma_pow2_unfold(a);
        if b + 1 < a {
            lemma_pow2_strictly_increases(b, (a - 1) as nat);
        }
    }
}

/// Rounds a logical capacity up to the slot count of the ring that holds it.
pub fn capacity_to_slots(capacity: usize) -> (slots: usize)
    requires
        capacity <= MAX_SLOTS,
    ensures
        slots == round_up(capacity as nat),
        is_slot_count(slots as int),
        capacity <= slots,
        capacity <= 1 ==> slots == 1,
        capacity > 1 ==> slots / 2 < capacity,
{
    next_power_of_two(capacity)
}

/// Position in a ring of `size` slots of the logical index `index`.
pub fn wrap_index(index: usize, size: usize) -> (r: usize)
    requires
        is_slot_count(size as int),
    ensures
        r == index % size,
        r < size,
{
    proof {
        let k = choose|k: nat| k <= 30 && size == #[trigger] pow2(k);
        lemma_slot_count_bounds(size as int);
        assert(low_bits_mask(k) == size - 1);
        lemma_usize_low_bits_mask_is_mod(index, k);
    }
    index & (size - 1)
}

/// The slot `offset` places after `start` in a ring of `size` slots.
pub open spec fn ring_index(start: int, offset: int, size: int) -> int {
    if start + offset >= size {
        start + offset - size
    } else {
        start + offset
    }
}

/// Position `addend` slots after `idx`, going round the ring.
pub fn wrap_add(idx: usize, addend: usize, size: usize) -> (r: usize)
    requires
        is_slot_count(size as int),
        idx < size,
        addend <= size,
    ensures
        r == (idx + addend) % (size as int),
        r == ring_index(idx as int, addend as int, size as int),
        r < size,
{
    proof {
        lemma_slot_count_bounds(size as int);
        if idx + addend >= size {
            vstd::arithmetic::div_mod::lemma_mod_add_multiples_vanish(
                idx + addend - size,
                size as int,
            );
            vstd::arithmetic::div_mod::lemma_small_mod((idx + addend - size) as nat, size as nat);
        } else {
            vstd::arithmetic::div_mod::lemma_small_mod((idx + addend) as nat, size as nat);
        }
    }
    wrap_index(idx + addend, size)
}

/// Position `subtrahend` slots before `idx`, going round the ring.
pub fn wrap_sub(idx: usize, subtrahend: usize, size: usize) -> (r: usize)
    requires
        is_slot_count(size as int),
        idx < size,
        subtrahend <= size,
    ensures
        r == (idx - subtrahend) % (size as int),
        r == ring_index(idx as int, size - subtrahend, size as int),
        r < size,
{
    proof {
        lemma_slot_count_bounds(size as int);
        vstd::arithmetic::div_mod::lemma_mod_add_multiples_vanish(
            idx - subtrahend,
            size as int,
        );
    }
    wrap_add(idx, size - subtrahend, size)
}

/// Number of slots from `tail` up to, and not including, `head`.
pub fn count(tail: usize, head: usize, size: usize) -> (r: usize)
    requires
        is_slot_count(size as int),
        tail < size,
        head < size,
    ensures
        r == (head - tail) % (size as int),
        r == if head >= tail { head - tail } else { head + size - tail },
        r < size,
{
    wrap_sub(head, tail, size)
}

} // verus!
