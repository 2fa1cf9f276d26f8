//! Facts about remainders that the ring and the frame cycle rest on.

use vstd::prelude::*;
use vstd::arithmetic::div_mod::{lemma_add_mod_noop, lemma_fundamental_div_mod, lemma_small_mod};

verus! {

/// Going on by less than a full turn never leads back to the same place.
pub proof fn lemma_mod_shift_distinct(start: int, shift: int, size: int)
    requires
        0 <= start,
        0 < shift < size,
    ensures
        (start + shift) % size != start % size,
{
    lemma_fundamental_div_mod(start, size);
    lemma_fundamental_div_mod(start + shift, size);
    let q1 = start / size;
    let q2 = (start + shift) / size;
    if (start + shift) % size == start % size {
        assert(size * (q2 - q1) == shift) by (nonlinear_arith)
            requires
                size * q2 - size * q1 == shift,
        ;
        if q2 - q1 <= 0 {
            assert(size * (q2 - q1) <= 0) by (nonlinear_arith)
                requires
                    size > 0,
                    q2 - q1 <= 0,
            ;
        } else {
            assert(size * (q2 - q1) >= size) by (nonlinear_arith)
                requires
                    size > 0,
                    q2 - q1 >= 1,
            ;
        }
    }
}

/// One step on from a place on the circle is the place of the sum.
pub proof fn lemma_mod_step(place: int, size: int)
    requires
        0 <= place,
        0 < size,
    ensures
        (place % size + 1) % size == (place + 1) % size,
        place % size + 1 == size ==> (place + 1) % size == 0,
        place % size + 1 < size ==> (place + 1) % size == place % size + 1,
{
    lemma_add_mod_noop(place, 1, size);
    vstd::arithmetic::div_mod::lemma_mod_bound(place, size);
    if size == 1 {
        lemma_small_mod(0, 1);
        vstd::arithmetic::div_mod::lemma_mod_self_0(1);
    } else {
        lemma_small_mod(1, size as nat);
    }
    if place % size + 1 == size {
        vstd::arithmetic::div_mod::lemma_mod_self_0(size);
    } else {
        lemma_small_mod((place % size + 1) as nat, size as nat);
    }
}

} // verus!
