//! The focus index: one number into the flattened order of focusable leaves,
//! moved forwards and backwards around the cycle.

use vstd::prelude::*;
use vstd::arithmetic::div_mod::{
    lemma_add_mod_noop, lemma_fundamental_div_mod, lemma_mod_multiples_vanish, lemma_small_mod,
};

verus! {

/// The focus index after one step forwards among `total` focusable leaves:
/// the next index, wrapping to zero behind the last; unchanged if there is
/// no focusable leaf.
pub open spec fn advanced(index: nat, total: nat) -> nat {
    if total == 0 {
        index
    } else {
        (index + 1) % total
    }
}

/// The focus index after one step backwards among `total` focusable leaves:
/// the previous index, wrapping to the last before zero; unchanged if there
/// is no focusable leaf.
pub open spec fn retreated(index: nat, total: nat) -> nat {
    if total == 0 {
        index
    } else {
        ((index + total - 1) % (total as int)) as nat
    }
}

/// The focus index after `steps` steps forwards.
pub open spec fn advanced_by(index: nat, total: nat, steps: nat) -> nat
    decreases steps,
{
    if steps == 0 {
        index
    } else {
        advanced(advanced_by(index, total, (steps - 1) as nat), total)
    }
}

/// The focus index after `steps` steps backwards.
pub open spec fn retreated_by(index: nat, total: nat, steps: nat) -> nat
    decreases steps,
{
    if steps == 0 {
        index
    } else {
        retreated(retreated_by(index, total, (steps - 1) as nat), total)
    }
}

/// The index names one of `total` leaves, or there is none to name.
pub open spec fn valid_focus(index: nat, total: nat) -> bool {
    total > 0 ==> index < total
}

/// Moves the focus index one step forwards.
pub fn advance(index: usize, total: usize) -> (next: usize)
    ensures
        next == advanced(index as nat, total as nat),
{
    if total == 0 {
        index
    } else {
        let here = index % total;
        proof {
            lemma_fundamental_div_mod(index as int, total as int);
            lemma_mod_multiples_vanish(index as int / total as int, here + 1, total as int);
            if here + 1 < total {
                lemma_small_mod((here + 1) as nat, total as nat);
            } else {
                lemma_mod_multiples_vanish(1, 0, total as int);
                lemma_small_mod(0, total as nat);
            }
            assert(total * (index as int / total as int) + (here + 1) == index + 1);
        }
        if here + 1 == total {
            0
        } else {
            here + 1
        }
    }
}

/// Moves the focus index one step backwards.
pub fn retreat(index: usize, total: usize) -> (previous: usize)
    ensures
        previous == retreated(index as nat, total as nat),
{
    if total == 0 {
        index
    } else {
        let here = index % total;
        proof {
            lemma_fundamental_div_mod(index as int, total as int);
            if here == 0 {
                lemma_mod_multiples_vanish(index as int / total as int, total - 1, total as int);
                lemma_small_mod((total - 1) as nat, total as nat);
            } else {
                lemma_mod_multiples_vanish(
                    index as int / total as int + 1,
                    here - 1,
                    total as int,
                );
                lemma_small_mod((here - 1) as nat, total as nat);
                assert(total * (index as int / total as int + 1) + (here - 1) == index + total
                    - 1) by (nonlinear_arith)
                    requires
                        index == total * (index as int / total as int) + here,
                ;
            }
        }
        if here == 0 {
            total - 1
        } else {
            here - 1
        }
    }
}

/// A step in either direction leaves a valid focus index valid, and with no
/// focusable leaf it leaves the index as it is.
pub proof fn step_keeps_focus_valid(index: nat, total: nat)
    ensures
        total > 0 ==> advanced(index, total) < total && retreated(index, total) < total,
        total == 0 ==> advanced(index, total) == index && retreated(index, total) == index,
{
}

proof fn advanced_by_is_sum(index: nat, total: nat, steps: nat)
    requires
        index < total,
    ensures
        advanced_by(index, total, steps) == (index + steps) % total,
    decreases steps,
{
    if steps == 0 {
        lemma_small_mod(index, total);
    } else {
        advanced_by_is_sum(index, total, (steps - 1) as nat);
        lemma_add_mod_noop(index + steps - 1, 1, total as int);
        if total == 1 {
        } else {
            lemma_small_mod(1, total);
        }
        lemma_add_mod_noop(((index + steps - 1) % (total as int)), 1, total as int);
    }
}

proof fn retreated_by_is_sum(index: nat, total: nat, steps: nat)
    requires
        index < total,
    ensures
        retreated_by(index, total, steps) == (index + steps * (total - 1)) % (total as int),
    decreases steps,
{
    if steps == 0 {
        lemma_small_mod(index, total);
    } else {
        retreated_by_is_sum(index, total, (steps - 1) as nat);
        let earlier = index + (steps - 1) * (total - 1);
        assert(index + steps * (total - 1) == earlier + (total - 1)) by (nonlinear_arith)
            requires
                earlier == index + (steps - 1) * (total - 1),
        ;
        lemma_add_mod_noop(earlier, total - 1, total as int);
        lemma_small_mod((total - 1) as nat, total);
        lemma_add_mod_noop(earlier % (total as int), total - 1, total as int);
        assert(earlier >= 0) by (nonlinear_arith)
            requires
                earlier == index + (steps - 1) * (total - 1),
                steps >= 1,
                total >= 1,
        ;
    }
}

/// As many steps forwards as there are focusable leaves bring a valid focus
/// index back to where it started.
pub proof fn advance_full_cycle(index: nat, total: nat)
    requires
        valid_focus(index, total),
    ensures
        advanced_by(index, total, total) == index,
{
    if total > 0 {
        advanced_by_is_sum(index, total, total);
        lemma_mod_multiples_vanish(1, index as int, total as int);
        lemma_small_mod(index, total);
    }
}

/// As many steps backwards as there are focusable leaves bring a valid focus
/// index back to where it started.
pub proof fn retreat_full_cycle(index: nat, total: nat)
    requires
        valid_focus(index, total),
    ensures
        retreated_by(index, total, total) == index,
{
    if total > 0 {
        retreated_by_is_sum(index, total, total);
        lemma_mod_multiples_vanish(total - 1, index as int, total as int);
        lemma_small_mod(index, total);
    }
}

/// A step backwards undoes a step forwards from a valid focus index, and the
/// other way round.
pub proof fn retreat_undoes_advance(index: nat, total: nat)
    requires
        valid_focus(index, total),
    ensures
        retreated(advanced(index, total), total) == index,
        advanced(retreated(index, total), total) == index,
{
    if total > 0 {
        advanced_by_is_sum(index, total, 1);
        retreated_by_is_sum(index, total, 1);
        assert(advanced_by(index, total, 1) == advanced(index, total));
        assert(retreated_by(index, total, 1) == retreated(index, total));
        let a = advanced(index, total);
        let r = retreated(index, total);
        if index + 1 < total {
            lemma_small_mod(index + 1, total);
            lemma_mod_multiples_vanish(1, index as int, total as int);
            lemma_small_mod(index, total);
        } else {
            lemma_mod_multiples_vanish(1, 0, total as int);
            lemma_small_mod(0, total);
            lemma_small_mod((total - 1) as nat, total);
        }
        if index == 0 {
            lemma_small_mod((total - 1) as nat, total);
            lemma_mod_multiples_vanish(1, 0, total as int);
            lemma_small_mod(0, total);
        } else {
            lemma_mod_multiples_vanish(1, index - 1, total as int);
            lemma_small_mod((index - 1) as nat, total);
            lemma_small_mod(index, total);
        }
    }
}

} // verus!
