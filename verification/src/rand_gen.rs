//! The deterministic pseudo-random generator that drives dice throws.
//!
//! The generator is a pure sequential state machine: every draw advances the
//! state by a fixed linear-congruential step, so that a run is reproducible
//! from its seed, which the tests rely on.

use vstd::prelude::*;

verus! {

/// The multiplier of the linear-congruential step.
pub const RAND_MUL: u64 = 6364136223846793005;

/// The increment of the linear-congruential step.
pub const RAND_INC: u64 = 1442695040888963407;

/// The seed a context starts from when none is given.
pub const RAND_DEFAULT_SEED: u64 = 1442695040888963407;

/// One step of the linear-congruential recurrence: multiply, add, and keep
/// the low 64 bits.
pub open spec fn lcg_step(s: int) -> int {
    (s * RAND_MUL + RAND_INC) % 0x10000000000000000
}

/// The face a state reads as, for a given face count: the top 31 bits of
/// the state, reduced to `1..=face`.
pub open spec fn face_of(s: int, face: int) -> int {
    1 + ((s / 0x200000000) % face)
}

/// The generator state after a number of draws.
pub open spec fn lcg_iter(s: int, k: nat) -> int
    decreases k,
{
    if k == 0 {
        s
    } else {
        lcg_step(lcg_iter(s, (k - 1) as nat))
    }
}

/// The sum of a run of draws from `1..=face` starting at a given state:
/// the one value a dice throw of that many dice must produce.
pub open spec fn dice_sum(s: int, k: nat, face: int) -> int
    decreases k,
{
    if k == 0 {
        0
    } else {
        dice_sum(s, (k - 1) as nat, face) + face_of(lcg_iter(s, k), face)
    }
}

/// The count of a run of draws from `1..=face` that satisfy a comparator
/// against a fixed operand, by the language's comparator table: the one
/// value a success-counting dice throw must produce.
pub open spec fn dice_count(s: int, k: nat, face: int, c: crate::model::CmpTo, m: int) -> int
    decreases k,
{
    if k == 0 {
        0
    } else {
        dice_count(s, (k - 1) as nat, face, c, m) + (
        if crate::semantics::cmp_table(c, face_of(lcg_iter(s, k), face), m) {
            1int
        } else {
            0int
        })
    }
}

/// The state of the pseudo-random generator.
#[derive(Debug, Clone, Copy)]
pub struct RandState {
    pub state: u64,
}

impl RandState {
    /// A generator started from the given seed.
    pub fn with_seed(seed: u64) -> (r: RandState)
        ensures
            r.state == seed,
    {
        RandState { state: seed }
    }

    /// Draws one die face from `1..=face`, advancing the state by exactly
    /// one linear-congruential step; both the new state and the drawn face
    /// are pure functions of the old state, which is what makes a run
    /// reproducible from its seed.
    pub fn draw(&mut self, face: i16) -> (r: i16)
        requires
            face >= 1,
        ensures
            final(self).state as int == lcg_step(old(self).state as int),
            r as int == face_of(final(self).state as int, face as int),
            1 <= r <= face,
    {
        proof {
            let s0 = old(self).state as int;
            assert(s0 * (RAND_MUL as int) <= 0xffffffffffffffff * 0xffffffffffffffff) by (
            nonlinear_arith)
                requires
                    0 <= s0 <= 0xffffffffffffffff,
            ;
        }
        let wide: u128 = (self.state as u128) * (RAND_MUL as u128) + (RAND_INC as u128);
        self.state = (wide % 0x10000000000000000) as u64;
        let x: u64 = self.state / 0x200000000;
        let f: u64 = face as u64;
        let m: u64 = x % f;
        assert(m < f);
        1 + (m as i16)
    }
}

} // verus!
