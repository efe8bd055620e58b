use vstd::prelude::*;
use crate::game::fleet::fleet::{Fleet, FleetID, spec_strength};
use crate::game::ship::model::spec_ship_model;

verus! {

#[derive(Debug, Clone, Copy, PartialEq, Eq, Hash, Structural)]
pub struct ConquestID(pub u128);

/// The longest a conquest lasts, in milliseconds.
pub const CONQUEST_DURATION_MAX_MS: i64 = 60000;

/// The shortest a conquest lasts, in milliseconds.
pub const CONQUEST_DURATION_MIN_MS: i64 = 5000;

/// How many milliseconds each point of strength takes off a conquest.
pub const CONQUEST_DURATION_COEFF: i64 = 100;

/// The summed strength of some fleets.
pub open spec fn spec_total_strength(fleets: Seq<Fleet>) -> int
    decreases fleets.len(),
{
    if fleets.len() == 0 {
        0
    } else {
        spec_total_strength(fleets.drop_last()) + spec_strength(fleets.last().squadrons@)
    }
}

proof fn lemma_strength_nonneg(s: Seq<crate::game::fleet::squadron::FleetSquadron>)
    ensures
        spec_strength(s) >= 0,
    decreases s.len(),
{
    if s.len() > 0 {
        lemma_strength_nonneg(s.drop_last());
        let m = spec_ship_model(s.last().category);
        assert(m.strength * s.last().quantity >= 0) by (nonlinear_arith)
            requires
                m.strength >= 0,
                s.last().quantity >= 0,
        ;
    }
}

proof fn lemma_total_strength_prefix(fleets: Seq<Fleet>, n: int)
    requires
        0 <= n <= fleets.len(),
    ensures
        0 <= spec_total_strength(fleets.take(n)) <= spec_total_strength(fleets),
        n < fleets.len() ==> spec_strength(fleets[n].squadrons@) <= spec_total_strength(fleets),
    decreases fleets.len(),
{
    if fleets.len() > 0 {
        lemma_strength_nonneg(fleets.last().squadrons@);
        if n == fleets.len() {
            assert(fleets.take(n) =~= fleets);
            lemma_total_strength_prefix(fleets.drop_last(), n - 1);
            assert(fleets.drop_last().take(n - 1) =~= fleets.take(n - 1));
        } else {
            lemma_total_strength_prefix(fleets.drop_last(), n);
            assert(fleets.drop_last().take(n) =~= fleets.take(n));
            if n < fleets.len() - 1 {
                assert(fleets.drop_last()[n] == fleets[n]);
            }
        }
    }
}

/// The summed strength of the fleets that conquer a system.
pub fn total_strength(fleets: &Vec<Fleet>) -> (s: u32)
    requires
        spec_total_strength(fleets@) <= u32::MAX,
    ensures
        s == spec_total_strength(fleets@),
{
    let mut strength: u32 = 0;
    let mut i: usize = 0;
    while i < fleets.len()
        invariant
            i <= fleets@.len(),
            spec_total_strength(fleets@) <= u32::MAX,
            strength == spec_total_strength(fleets@.take(i as int)),
        decreases fleets@.len() - i,
    {
        proof {
            lemma_total_strength_prefix(fleets@, i + 1);
            lemma_total_strength_prefix(fleets@, i as int);
            assert(fleets@.take(i + 1).drop_last() =~= fleets@.take(i as int));
        }
        let s = fleets[i].get_strength();
        strength = strength + s;
        i = i + 1;
    }
    assert(fleets@.take(i as int) =~= fleets@);
    strength
}

/// How long a conquest from scratch lasts, in milliseconds, against the
/// strength of the conquering fleets: a minute, less a tenth of a second
/// per point of strength, and never under five seconds.
pub open spec fn spec_conquest_duration_ms(strength: u32) -> i64 {
    let ms = CONQUEST_DURATION_MAX_MS - CONQUEST_DURATION_COEFF * strength;
    if ms < CONQUEST_DURATION_MIN_MS {
        CONQUEST_DURATION_MIN_MS
    } else {
        ms as i64
    }
}

/// A conquest from scratch lasts a minute less a tenth of a second per point
/// of strength, down to a floor of five seconds, which is reached at a
/// strength of 550; stronger fleets never take longer than weaker ones.
pub proof fn lemma_conquest_duration(strength: u32, stronger: u32)
    ensures
        strength <= 550 ==> spec_conquest_duration_ms(strength) == 60000 - 100 * strength,
        strength >= 550 ==> spec_conquest_duration_ms(strength) == 5000,
        strength <= stronger ==> spec_conquest_duration_ms(stronger) <= spec_conquest_duration_ms(strength),
{
}

/// How long a conquest from scratch lasts, in milliseconds.
pub fn conquest_duration_ms(strength: u32) -> (ms: i64)
    ensures
        ms == spec_conquest_duration_ms(strength),
        CONQUEST_DURATION_MIN_MS <= ms <= CONQUEST_DURATION_MAX_MS,
        strength <= 550 ==> ms == 60000 - 100 * strength,
        strength >= 550 ==> ms == 5000,
{
    proof {
        lemma_conquest_duration(strength, strength);
    }
    let ms: i64 = CONQUEST_DURATION_MAX_MS - CONQUEST_DURATION_COEFF * (strength as i64);
    if ms < CONQUEST_DURATION_MIN_MS {
        CONQUEST_DURATION_MIN_MS
    } else {
        ms
    }
}

/// Whether a conquest ends when fleet `leaving` leaves the system: it does
/// when no other fleet of `orbiting` stays behind.
pub fn is_cancelled_by_departure(orbiting: &Vec<FleetID>, leaving: FleetID) -> (cancelled: bool)
    ensures
        cancelled <==> (forall|i: int| 0 <= i < orbiting@.len() ==> orbiting@[i] == leaving),
{
    let mut i: usize = 0;
    while i < orbiting.len()
        invariant
            i <= orbiting@.len(),
            forall|k: int| 0 <= k < i ==> orbiting@[k] == leaving,
        decreases orbiting@.len() - i,
    {
        if orbiting[i] != leaving {
            return false;
        }
        i = i + 1;
    }
    true
}

} // verus!
