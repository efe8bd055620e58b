use vstd::prelude::*;
use crate::game::faction::{FactionID, GameFaction};
use crate::game::system::system::SystemDominion;

verus! {

/// How a faction won the game.
#[derive(Debug, Clone, Copy, PartialEq, Eq, Structural)]
pub enum VictoryKind {
    Forfeit,
    Supremacy,
    Territorial,
}

/// How many times `f` occurs in `s`.
pub open spec fn spec_count(s: Seq<FactionID>, f: FactionID) -> nat
    decreases s.len(),
{
    if s.len() == 0 {
        0
    } else {
        spec_count(s.drop_last(), f) + if s.last() == f {
            1nat
        } else {
            0nat
        }
    }
}

/// No two standings belong to the same faction.
pub open spec fn spec_distinct_factions(factions: Seq<GameFaction>) -> bool {
    forall|a: int, b: int| 0 <= a < b < factions.len() ==> factions[a].faction != factions[b].faction
}

/// Faction `f` has a standing among `factions`.
pub open spec fn spec_has_standing(factions: Seq<GameFaction>, f: FactionID) -> bool {
    exists|a: int| 0 <= a < factions.len() && (#[trigger] factions[a]).faction == f
}

/// Each minute, every faction earns ten victory points for each victory
/// system its players hold; `holders` gives, for each held victory system,
/// the faction of its owner. A faction that reaches `goal` wins the game:
/// when several do, the last of them in `factions` is named.
pub fn award_victory_points(factions: &mut Vec<GameFaction>, holders: &Vec<FactionID>, goal: i32) -> (victor: Option<usize>)
    requires
        spec_distinct_factions(old(factions)@),
        forall|h: int| 0 <= h < holders@.len() ==> spec_has_standing(old(factions)@, #[trigger] holders@[h]),
        forall|a: int|
            0 <= a < old(factions)@.len() ==> (#[trigger] old(factions)@[a]).victory_points + 10 * spec_count(
                holders@,
                old(factions)@[a].faction,
            ) <= u16::MAX,
    ensures
        final(factions)@.len() == old(factions)@.len(),
        forall|a: int|
            0 <= a < final(factions)@.len() ==> (#[trigger] final(factions)@[a]).faction == old(factions)@[a].faction
                && final(factions)@[a].game == old(factions)@[a].game && final(factions)@[a].victory_points
                == old(factions)@[a].victory_points + 10 * spec_count(holders@, old(factions)@[a].faction),
        match victor {
            None => forall|a: int| 0 <= a < final(factions)@.len() ==> (#[trigger] final(factions)@[a]).victory_points < goal,
            Some(v) => v < final(factions)@.len() && final(factions)@[v as int].victory_points >= goal && forall|a: int|
                v < a < final(factions)@.len() ==> (#[trigger] final(factions)@[a]).victory_points < goal,
        },
{
    let ghost start = factions@;
    let mut h: usize = 0;
    while h < holders.len()
        invariant
            h <= holders@.len(),
            factions@.len() == start.len(),
            spec_distinct_factions(start),
            forall|hh: int| 0 <= hh < holders@.len() ==> spec_has_standing(start, #[trigger] holders@[hh]),
            forall|a: int|
                0 <= a < start.len() ==> (#[trigger] start[a]).victory_points + 10 * spec_count(holders@, start[a].faction)
                    <= u16::MAX,
            forall|a: int|
                0 <= a < factions@.len() ==> (#[trigger] factions@[a]).faction == start[a].faction && factions@[a].game
                    == start[a].game && factions@[a].victory_points == start[a].victory_points + 10 * spec_count(
                    holders@.take(h as int),
                    start[a].faction,
                ),
        decreases holders@.len() - h,
    {
        let f = holders[h];
        proof {
            assert(holders@.take(h + 1).drop_last() =~= holders@.take(h as int));
            assert(spec_has_standing(start, holders@[h as int]));
        }
        let mut a: usize = 0;
        while a < factions.len()
            invariant
                a <= factions@.len(),
                factions@.len() == start.len(),
                f == holders@[h as int],
                spec_has_standing(start, f),
                forall|b: int| 0 <= b < a ==> start[b].faction != f,
                forall|b: int|
                    0 <= b < factions@.len() ==> (#[trigger] factions@[b]).faction == start[b].faction,
            ensures
                a < factions@.len(),
                factions@[a as int].faction == f,
            decreases factions@.len() - a,
        {
            if factions[a].faction == f {
                break;
            }
            a = a + 1;
        }
        let mut standing = factions[a];
        proof {
            lemma_count_le(holders@, h as int + 1, f);
            assert(spec_count(holders@.take(h as int), f) + 1 == spec_count(holders@.take(h + 1), f));
        }
        standing.victory_points = standing.victory_points + 10;
        factions.set(a, standing);
        proof {
            assert forall|b: int|
                0 <= b < factions@.len() implies (#[trigger] factions@[b]).faction == start[b].faction && factions@[b].game
                == start[b].game && factions@[b].victory_points == start[b].victory_points + 10 * spec_count(
                holders@.take(h + 1),
                start[b].faction,
            ) by {
                if b != a {
                    assert(start[b].faction != f);
                }
            }
        }
        h = h + 1;
    }
    assert(holders@.take(h as int) =~= holders@);
    let mut victor: Option<usize> = None;
    let mut a: usize = 0;
    while a < factions.len()
        invariant
            a <= factions@.len(),
            match victor {
                None => forall|b: int| 0 <= b < a ==> (#[trigger] factions@[b]).victory_points < goal,
                Some(v) => v < a && factions@[v as int].victory_points >= goal && forall|b: int|
                    v < b < a ==> (#[trigger] factions@[b]).victory_points < goal,
            },
        decreases factions@.len() - a,
    {
        if factions[a].victory_points as i32 >= goal {
            victor = Some(a);
        }
        a = a + 1;
    }
    victor
}

/// The count over a prefix never exceeds the count over the whole sequence.
proof fn lemma_count_le(s: Seq<FactionID>, n: int, f: FactionID)
    requires
        0 <= n <= s.len(),
    ensures
        spec_count(s.take(n), f) <= spec_count(s, f),
    decreases s.len(),
{
    if s.len() > 0 {
        if n == s.len() {
            assert(s.take(n) =~= s);
        } else {
            lemma_count_le(s.drop_last(), n, f);
            assert(s.drop_last().take(n) =~= s.take(n));
        }
    }
}

/// A faction wins by supremacy when its players are the only ones left
/// holding systems: the faction of the only dominion with systems, if only
/// one has any.
pub fn supremacy_victor(dominions: &Vec<SystemDominion>) -> (victor: Option<FactionID>)
    ensures
        match victor {
            Some(f) => exists|i: int|
                0 <= i < dominions@.len() && (#[trigger] dominions@[i]).faction_id == f && dominions@[i].nb_systems > 0
                    && forall|j: int| 0 <= j < dominions@.len() && j != i ==> (#[trigger] dominions@[j]).nb_systems == 0,
            None => forall|i: int|
                0 <= i < dominions@.len() && (#[trigger] dominions@[i]).nb_systems > 0 ==> exists|j: int|
                    0 <= j < dominions@.len() && j != i && (#[trigger] dominions@[j]).nb_systems > 0,
        },
{
    let mut found: Option<usize> = None;
    let mut count: usize = 0;
    let mut i: usize = 0;
    while i < dominions.len()
        invariant
            i <= dominions@.len(),
            count <= i,
            count == 0 <==> found is None,
            count == 0 ==> forall|j: int| 0 <= j < i ==> (#[trigger] dominions@[j]).nb_systems == 0,
            found matches Some(k) ==> k < i && dominions@[k as int].nb_systems > 0,
            count == 1 ==> (found matches Some(k) && forall|j: int|
                0 <= j < i && j != k ==> (#[trigger] dominions@[j]).nb_systems == 0),
            count >= 2 ==> exists|x: int, y: int|
                0 <= x < y < i && (#[trigger] dominions@[x]).nb_systems > 0 && (#[trigger] dominions@[y]).nb_systems > 0,
        decreases dominions@.len() - i,
    {
        if dominions[i].nb_systems > 0 {
            if count == 1 {
                let k = found.unwrap();
                assert(dominions@[k as int].nb_systems > 0);
                assert(dominions@[i as int].nb_systems > 0);
            }
            if count < 2 {
                count = count + 1;
            }
            if found.is_none() {
                found = Some(i);
            }
        }
        i = i + 1;
    }
    if count == 1 {
        let k = found.unwrap();
        return Some(dominions[k].faction_id);
    }
    proof {
        if count >= 2 {
            let (x, y) = choose|x: int, y: int|
                0 <= x < y < i && (#[trigger] dominions@[x]).nb_systems > 0 && (#[trigger] dominions@[y]).nb_systems > 0;
            assert forall|ii: int|
                0 <= ii < dominions@.len() && (#[trigger] dominions@[ii]).nb_systems > 0 implies exists|j: int|
                    0 <= j < dominions@.len() && j != ii && (#[trigger] dominions@[j]).nb_systems > 0 by {
                if ii == x {
                    assert(dominions@[y].nb_systems > 0);
                } else {
                    assert(dominions@[x].nb_systems > 0);
                }
            }
        }
    }
    None
}

} // verus!
