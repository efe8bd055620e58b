use vstd::prelude::*;
use crate::game::fleet::fleet::{Fleet, FleetID, spec_has_ships};
use crate::game::fleet::squadron::FleetSquadron;
use crate::game::fleet::battle::spec_same_but_squadrons;
use crate::util::random::random_index;

verus! {

/// A one-on-one fight is over when the attacker, or every defender, has no
/// ship left.
pub fn is_fight_over(attacker: &Fleet, defenders: &Vec<Fleet>) -> (b: bool)
    ensures
        b == (!spec_has_ships(attacker.squadrons@) || forall|i: int|
            0 <= i < defenders@.len() ==> !spec_has_ships(#[trigger] defenders@[i].squadrons@)),
{
    if !attacker.can_fight() {
        return true;
    }
    let mut i: usize = 0;
    while i < defenders.len()
        invariant
            i <= defenders@.len(),
            spec_has_ships(attacker.squadrons@),
            forall|k: int| 0 <= k < i ==> !spec_has_ships(#[trigger] defenders@[k].squadrons@),
        decreases defenders@.len() - i,
    {
        if defenders[i].can_fight() {
            assert(spec_has_ships(defenders@[i as int].squadrons@));
            return false;
        }
        i = i + 1;
    }
    true
}

/// A defending fleet that still holds ships, drawn at random; none when no
/// defender holds any.
pub fn pick_target_fleet(fleets: &Vec<Fleet>) -> (r: Option<FleetID>)
    ensures
        r is None <==> forall|i: int| 0 <= i < fleets@.len() ==> !spec_has_ships(#[trigger] fleets@[i].squadrons@),
        r matches Some(id) ==> exists|i: int|
            0 <= i < fleets@.len() && #[trigger] fleets@[i].id == id && spec_has_ships(fleets@[i].squadrons@),
{
    let mut fighting: Vec<FleetID> = Vec::new();
    let ghost mut source: Seq<int> = Seq::empty();
    let mut i: usize = 0;
    while i < fleets.len()
        invariant
            i <= fleets@.len(),
            source.len() == fighting@.len(),
            forall|c: int|
                0 <= c < fighting@.len() ==> 0 <= #[trigger] source[c] < i && fleets@[source[c]].id == fighting@[c]
                    && spec_has_ships(fleets@[source[c]].squadrons@),
            (fighting@.len() == 0) <==> forall|k: int| 0 <= k < i ==> !spec_has_ships(#[trigger] fleets@[k].squadrons@),
        decreases fleets@.len() - i,
    {
        if fleets[i].can_fight() {
            fighting.push(fleets[i].id);
            proof {
                source = source.push(i as int);
            }
        }
        i = i + 1;
    }
    if fighting.len() == 0 {
        return None;
    }
    let index = random_index(fighting.len());
    assert(fleets@[source[index as int]].id == fighting@[index as int]);
    Some(fighting[index])
}

/// A squadron of the fleet that still holds ships, drawn at random.
pub fn pick_target_ship_group(fleet: &Fleet) -> (idx: usize)
    requires
        spec_has_ships(fleet.squadrons@),
    ensures
        idx < fleet.squadrons@.len(),
        fleet.squadrons@[idx as int].quantity > 0,
{
    let mut fighting: Vec<usize> = Vec::new();
    let mut i: usize = 0;
    while i < fleet.squadrons.len()
        invariant
            i <= fleet.squadrons@.len(),
            forall|c: int|
                0 <= c < fighting@.len() ==> #[trigger] fighting@[c] < fleet.squadrons@.len()
                    && fleet.squadrons@[fighting@[c] as int].quantity > 0,
            (fighting@.len() == 0) ==> forall|k: int| 0 <= k < i ==> #[trigger] fleet.squadrons@[k].quantity == 0,
        decreases fleet.squadrons@.len() - i,
    {
        if fleet.squadrons[i].quantity > 0 {
            fighting.push(i);
        }
        i = i + 1;
    }
    let index = random_index(fighting.len());
    fighting[index]
}

/// The ships of a group of `quantity` left after taking `damage`, each ship
/// withstanding `hit_points`: every started `hit_points` of damage destroys
/// a ship, and a group never drops below zero ships.
pub fn remaining_after_fire(quantity: u16, damage: u16, hit_points: u16) -> (r: u16)
    requires
        hit_points > 0,
    ensures
        r == (if quantity >= (damage + hit_points - 1) / (hit_points as int) {
            quantity - (damage + hit_points - 1) / (hit_points as int)
        } else {
            0
        }),
{
    let casualties: u32 = (damage as u32 + hit_points as u32 - 1) / hit_points as u32;
    if casualties > quantity as u32 {
        return 0;
    }
    (quantity as u32 - casualties) as u16
}

/// The ships that some squadrons hold.
pub open spec fn spec_ships(s: Seq<FleetSquadron>) -> int
    decreases s.len(),
{
    if s.len() == 0 {
        0
    } else {
        spec_ships(s.drop_last()) + s.last().quantity
    }
}

/// The ships that some fleets hold.
pub open spec fn spec_fleets_ships(fleets: Seq<Fleet>) -> int
    decreases fleets.len(),
{
    if fleets.len() == 0 {
        0
    } else {
        spec_fleets_ships(fleets.drop_last()) + spec_ships(fleets.last().squadrons@)
    }
}

proof fn lemma_ships_update(s: Seq<FleetSquadron>, d: int, x: FleetSquadron)
    requires
        0 <= d < s.len(),
    ensures
        spec_ships(s.update(d, x)) == spec_ships(s) - s[d].quantity + x.quantity,
    decreases s.len(),
{
    if d < s.len() - 1 {
        lemma_ships_update(s.drop_last(), d, x);
        assert(s.update(d, x).drop_last() =~= s.drop_last().update(d, x));
    } else {
        assert(s.update(d, x).drop_last() =~= s.drop_last());
    }
}

proof fn lemma_fleets_ships_update(fleets: Seq<Fleet>, i: int, f: Fleet)
    requires
        0 <= i < fleets.len(),
    ensures
        spec_fleets_ships(fleets.update(i, f)) == spec_fleets_ships(fleets) - spec_ships(fleets[i].squadrons@) + spec_ships(
            f.squadrons@,
        ),
    decreases fleets.len(),
{
    if i < fleets.len() - 1 {
        lemma_fleets_ships_update(fleets.drop_last(), i, f);
        assert(fleets.update(i, f).drop_last() =~= fleets.drop_last().update(i, f));
    } else {
        assert(fleets.update(i, f).drop_last() =~= fleets.drop_last());
    }
}

/// `fire` never lets a squadron with ships come out of a volley unscathed:
/// a squadron with ships that shoots at one with ships destroys at least
/// one of them.
pub open spec fn spec_fire_destroys<F: Fn(&FleetSquadron, &FleetSquadron) -> u16>(fire: F) -> bool {
    forall|a: &FleetSquadron, t: &FleetSquadron, r: u16|
        a.quantity > 0 && t.quantity > 0 && #[trigger] call_ensures(fire, (a, t), r) ==> r < t.quantity
}

/// `after` is `before` where one squadron with ships was hit by a squadron
/// with ships of `shooters` and kept the ships that `fire` spared it.
pub open spec fn spec_hit<F: Fn(&FleetSquadron, &FleetSquadron) -> u16>(
    fire: F,
    shooters: Seq<FleetSquadron>,
    before: Seq<FleetSquadron>,
    after: Seq<FleetSquadron>,
) -> bool {
    exists|a: int, d: int, r: u16|
        0 <= a < shooters.len() && shooters[a].quantity > 0 && 0 <= d < before.len() && before[d].quantity > 0
            && #[trigger] call_ensures(fire, (&shooters[a], &before[d]), r) && after == before.update(
            d,
            FleetSquadron { quantity: r, ..before[d] },
        )
}

proof fn lemma_hit_destroys<F: Fn(&FleetSquadron, &FleetSquadron) -> u16>(
    fire: F,
    shooters: Seq<FleetSquadron>,
    before: Seq<FleetSquadron>,
    after: Seq<FleetSquadron>,
)
    requires
        spec_fire_destroys(fire),
        spec_hit(fire, shooters, before, after),
    ensures
        spec_ships(after) < spec_ships(before),
        after.len() == before.len(),
{
    let (a, d, r) = choose|a: int, d: int, r: u16|
        0 <= a < shooters.len() && shooters[a].quantity > 0 && 0 <= d < before.len() && before[d].quantity > 0
            && #[trigger] call_ensures(fire, (&shooters[a], &before[d]), r) && after == before.update(
            d,
            FleetSquadron { quantity: r, ..before[d] },
        );
    lemma_ships_update(before, d, FleetSquadron { quantity: r, ..before[d] });
}

/// One fleet shoots at another: a squadron of the attacker with ships,
/// drawn at random, fires at a squadron of the defender with ships, drawn
/// at random, which keeps the ships that `fire` spares it.
pub fn attack_fleet<F: Fn(&FleetSquadron, &FleetSquadron) -> u16>(attacker: &Fleet, defender: &mut Fleet, fire: &F)
    requires
        spec_has_ships(attacker.squadrons@),
        spec_has_ships(old(defender).squadrons@),
        forall|a: &FleetSquadron, t: &FleetSquadron| call_requires(*fire, (a, t)),
    ensures
        spec_same_but_squadrons(*final(defender), *old(defender)),
        spec_hit(*fire, attacker.squadrons@, old(defender).squadrons@, final(defender).squadrons@),
{
    let a = pick_target_ship_group(attacker);
    let d = pick_target_ship_group(defender);
    let shooter = attacker.squadrons[a];
    let target = defender.squadrons[d];
    let r = fire(&shooter, &target);
    defender.squadrons.set(d, FleetSquadron { quantity: r, ..target });
    assert(call_ensures(*fire, (&attacker.squadrons@[a as int], &old(defender).squadrons@[d as int]), r));
}

/// `after` holds the fleets of `before`, in the same order, each unchanged
/// but for its squadrons, of which it holds as many.
pub open spec fn spec_same_fleets(after: Seq<Fleet>, before: Seq<Fleet>) -> bool {
    &&& after.len() == before.len()
    &&& forall|k: int|
        0 <= k < after.len() ==> spec_same_but_squadrons(#[trigger] after[k], before[k]) && after[k].squadrons@.len()
            == before[k].squadrons@.len()
}

/// One round of a one-on-one fight: the attacker shoots at a defending
/// fleet with ships, drawn at random, then every defender with ships shoots
/// back while the attacker has ships left. Tells whether a defender could be
/// targeted; when none could, nothing happens.
pub fn fight_round<F: Fn(&FleetSquadron, &FleetSquadron) -> u16>(
    attacker: &mut Fleet,
    defenders: &mut Vec<Fleet>,
    fire: &F,
) -> (fought: bool)
    requires
        spec_has_ships(old(attacker).squadrons@),
        forall|a: &FleetSquadron, t: &FleetSquadron| call_requires(*fire, (a, t)),
        spec_fire_destroys(*fire),
    ensures
        spec_same_but_squadrons(*final(attacker), *old(attacker)),
        final(attacker).squadrons@.len() == old(attacker).squadrons@.len(),
        spec_same_fleets(final(defenders)@, old(defenders)@),
        !fought <==> forall|k: int| 0 <= k < old(defenders)@.len() ==> !spec_has_ships(#[trigger] old(defenders)@[k].squadrons@),
        !fought ==> *final(attacker) == *old(attacker) && final(defenders)@ == old(defenders)@,
        fought ==> spec_ships(final(attacker).squadrons@) + spec_fleets_ships(final(defenders)@) < spec_ships(
            old(attacker).squadrons@,
        ) + spec_fleets_ships(old(defenders)@),
{
    let picked = pick_target_fleet(defenders);
    let target_id = match picked {
        None => {
            return false;
        },
        Some(id) => id,
    };
    let mut idx: usize = 0;
    while idx < defenders.len()
        invariant
            idx <= defenders@.len(),
            exists|i: int| idx <= i < defenders@.len() && defenders@[i].id == target_id && spec_has_ships(defenders@[i].squadrons@),
        ensures
            idx < defenders@.len(),
            spec_has_ships(defenders@[idx as int].squadrons@),
        decreases defenders@.len() - idx,
    {
        if defenders[idx].id == target_id && defenders[idx].can_fight() {
            break;
        }
        idx = idx + 1;
    }
    let ghost start = defenders@;
    let mut target = defenders.remove(idx);
    let ghost target_before = target;
    attack_fleet(attacker, &mut target, fire);
    proof {
        lemma_hit_destroys(*fire, old(attacker).squadrons@, target_before.squadrons@, target.squadrons@);
    }
    defenders.insert(idx, target);
    proof {
        assert(defenders@ =~= start.update(idx as int, target));
        lemma_fleets_ships_update(start, idx as int, target);
    }
    let ghost after_attack = defenders@;
    let mut k: usize = 0;
    while k < defenders.len()
        invariant
            k <= defenders@.len(),
            defenders@ == after_attack,
            forall|a: &FleetSquadron, t: &FleetSquadron| call_requires(*fire, (a, t)),
            spec_fire_destroys(*fire),
            spec_same_but_squadrons(*attacker, *old(attacker)),
            attacker.squadrons@.len() == old(attacker).squadrons@.len(),
            spec_ships(attacker.squadrons@) <= spec_ships(old(attacker).squadrons@),
        decreases defenders@.len() - k,
    {
        if attacker.can_fight() && defenders[k].can_fight() {
            let ghost attacker_before = *attacker;
            attack_fleet(&defenders[k], attacker, fire);
            proof {
                lemma_hit_destroys(*fire, defenders@[k as int].squadrons@, attacker_before.squadrons@, attacker.squadrons@);
            }
        }
        k = k + 1;
    }
    true
}

/// A one-on-one fight: rounds follow one another until the attacker or
/// every defender has no ship left, then each fleet sheds its squadrons
/// without ships (see `Fleet::clear_losses`). Tells whether the attacker
/// kept ships. Since every volley destroys a ship, the fight ends.
pub fn engage<F: Fn(&FleetSquadron, &FleetSquadron) -> u16>(
    attacker: &mut Fleet,
    defenders: &mut Vec<Fleet>,
    fire: &F,
) -> (won: bool)
    requires
        forall|a: &FleetSquadron, t: &FleetSquadron| call_requires(*fire, (a, t)),
        spec_fire_destroys(*fire),
    ensures
        final(defenders)@.len() == old(defenders)@.len(),
        won <==> final(attacker).squadrons@.len() > 0,
        won ==> forall|k: int| 0 <= k < final(defenders)@.len() ==> (#[trigger] final(defenders)@[k]).squadrons@.len() == 0,
        forall|j: int|
            0 <= j < final(attacker).squadrons@.len() ==> (#[trigger] final(attacker).squadrons@[j]).quantity > 0,
        forall|k: int, j: int|
            0 <= k < final(defenders)@.len() && 0 <= j < final(defenders)@[k].squadrons@.len() ==> (
            #[trigger] final(defenders)@[k].squadrons@[j]).quantity > 0,
        final(attacker).id == old(attacker).id,
        final(attacker).player == old(attacker).player,
        forall|k: int|
            0 <= k < final(defenders)@.len() ==> (#[trigger] final(defenders)@[k]).id == old(defenders)@[k].id
                && final(defenders)@[k].player == old(defenders)@[k].player,
{
    let ghost start = defenders@;
    loop
        invariant
            forall|a: &FleetSquadron, t: &FleetSquadron| call_requires(*fire, (a, t)),
            spec_fire_destroys(*fire),
            attacker.id == old(attacker).id,
            attacker.player == old(attacker).player,
            defenders@.len() == start.len(),
            forall|k: int|
                0 <= k < defenders@.len() ==> (#[trigger] defenders@[k]).id == start[k].id && defenders@[k].player
                    == start[k].player,
        ensures
            defenders@.len() == start.len(),
            attacker.id == old(attacker).id,
            attacker.player == old(attacker).player,
            forall|k: int|
                0 <= k < defenders@.len() ==> (#[trigger] defenders@[k]).id == start[k].id && defenders@[k].player
                    == start[k].player,
            !spec_has_ships(attacker.squadrons@) || forall|k: int|
                0 <= k < defenders@.len() ==> !spec_has_ships(#[trigger] defenders@[k].squadrons@),
        decreases spec_ships(attacker.squadrons@) + spec_fleets_ships(defenders@),
    {
        if is_fight_over(attacker, defenders) {
            break;
        }
        let ghost before = defenders@;
        let fought = fight_round(attacker, defenders, fire);
        if !fought {
            break;
        }
        proof {
            assert forall|k: int| 0 <= k < defenders@.len() implies (#[trigger] defenders@[k]).id == start[k].id
                && defenders@[k].player == start[k].player by {
                assert(spec_same_but_squadrons(defenders@[k], before[k]));
            }
            lemma_ships_nonneg(attacker.squadrons@);
            lemma_fleets_ships_nonneg(defenders@);
        }
    }
    attacker.clear_losses();
    let ghost fought_out = defenders@;
    let mut k: usize = 0;
    while k < defenders.len()
        invariant
            k <= defenders@.len(),
            defenders@.len() == fought_out.len(),
            forall|i: int|
                k <= i < defenders@.len() ==> #[trigger] defenders@[i] == fought_out[i],
            forall|i: int|
                0 <= i < k ==> (#[trigger] defenders@[i]).id == fought_out[i].id && defenders@[i].player
                    == fought_out[i].player && (defenders@[i].squadrons@.len() == 0 <==> !spec_has_ships(
                    fought_out[i].squadrons@,
                )) && forall|j: int|
                    0 <= j < defenders@[i].squadrons@.len() ==> (#[trigger] defenders@[i].squadrons@[j]).quantity > 0,
        decreases defenders@.len() - k,
    {
        let mut fleet = defenders.remove(k);
        fleet.clear_losses();
        defenders.insert(k, fleet);
        k = k + 1;
    }
    attacker.squadrons.len() > 0
}

proof fn lemma_ships_nonneg(s: Seq<FleetSquadron>)
    ensures
        spec_ships(s) >= 0,
    decreases s.len(),
{
    if s.len() > 0 {
        lemma_ships_nonneg(s.drop_last());
    }
}

proof fn lemma_fleets_ships_nonneg(fleets: Seq<Fleet>)
    ensures
        spec_fleets_ships(fleets) >= 0,
    decreases fleets.len(),
{
    if fleets.len() > 0 {
        lemma_ships_nonneg(fleets.last().squadrons@);
        lemma_fleets_ships_nonneg(fleets.drop_last());
    }
}

} // verus!
