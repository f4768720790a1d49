//! Digital inputs: the logical level of a pin under its polarity, and the
//! levels of a group of inputs packed into one register value.

use vstd::arithmetic::power2::{lemma2_to64, lemma_pow2_strictly_increases, lemma_pow2_unfold, pow2};
use vstd::prelude::*;

verus! {

/// Whether a pin reads as it is wired, or inverted.
#[derive(Debug, Clone, Copy, PartialEq, Eq, Structural)]
pub enum Polarity {
    Normal,
    Inverse,
}

/// The logical level of a pin whose electrical level is `pin_high`.
pub fn is_high(polarity: Polarity, pin_high: bool) -> (r: bool)
    ensures
        r == (pin_high != (polarity == Polarity::Inverse)),
{
    match polarity {
        Polarity::Inverse => !pin_high,
        Polarity::Normal => pin_high,
    }
}

/// The logical low level of a pin whose electrical level is `pin_high`.
pub fn is_low(polarity: Polarity, pin_high: bool) -> (r: bool)
    ensures
        r == !(pin_high != (polarity == Polarity::Inverse)),
{
    !is_high(polarity, pin_high)
}

/// A pin condition to wait for.
#[derive(Debug, Clone, Copy, PartialEq, Eq, Structural)]
pub enum Edge {
    High,
    Low,
    Rising,
    Falling,
    Any,
}

/// The electrical condition of the pin that shows logical condition `wanted`
/// under `polarity`: an inverted pin swaps high with low and rising with
/// falling.
pub fn pin_condition(polarity: Polarity, wanted: Edge) -> (r: Edge)
    ensures
        polarity == Polarity::Normal ==> r == wanted,
        polarity == Polarity::Inverse ==> r == match wanted {
            Edge::High => Edge::Low,
            Edge::Low => Edge::High,
            Edge::Rising => Edge::Falling,
            Edge::Falling => Edge::Rising,
            Edge::Any => Edge::Any,
        },
{
    match polarity {
        Polarity::Normal => wanted,
        Polarity::Inverse => match wanted {
            Edge::High => Edge::Low,
            Edge::Low => Edge::High,
            Edge::Rising => Edge::Falling,
            Edge::Falling => Edge::Rising,
            Edge::Any => Edge::Any,
        },
    }
}

/// The value of a group of levels: bit `i` is set when input `i` is active.
pub open spec fn group_spec(levels: Seq<bool>) -> nat
    decreases levels.len(),
{
    if levels.len() == 0 {
        0
    } else {
        group_spec(levels.drop_last()) + if levels.last() {
            pow2((levels.len() - 1) as nat)
        } else {
            0
        }
    }
}

proof fn lemma_group_bound(levels: Seq<bool>)
    ensures
        group_spec(levels) < pow2(levels.len()),
    decreases levels.len(),
{
    if levels.len() == 0 {
        lemma2_to64();
    } else {
        lemma_group_bound(levels.drop_last());
        lemma_pow2_unfold(levels.len());
    }
}

/// The levels of up to 32 inputs packed into one value, input `i` giving
/// bit `i`.
pub fn group_calculate(levels: &[bool]) -> (r: u32)
    requires
        levels@.len() <= 32,
    ensures
        r == group_spec(levels@),
{
    let mut acc: u64 = 0;
    let mut weight: u64 = 1;
    let mut i: usize = 0;
    proof {
        lemma2_to64();
        assert(levels@.subrange(0, 0) =~= Seq::<bool>::empty());
    }
    while i < levels.len()
        invariant
            i <= levels@.len() <= 32,
            weight == pow2(i as nat),
            acc == group_spec(levels@.subrange(0, i as int)),
            pow2(32) == 0x1_0000_0000,
        decreases levels@.len() - i,
    {
        proof {
            lemma_group_bound(levels@.subrange(0, i as int));
            if i < 32 {
                lemma_pow2_strictly_increases(i as nat, 32);
            }
            lemma_pow2_unfold((i + 1) as nat);
            assert(levels@.subrange(0, i + 1).drop_last() =~= levels@.subrange(0, i as int));
        }
        if levels[i] {
            acc = acc + weight;
        }
        weight = weight * 2;
        i = i + 1;
    }
    proof {
        assert(levels@.subrange(0, levels@.len() as int) =~= levels@);
        lemma_group_bound(levels@);
        if levels@.len() < 32 {
            lemma_pow2_strictly_increases(levels@.len(), 32);
        }
    }
    acc as u32
}

} // verus!
