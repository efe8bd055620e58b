use vstd::prelude::*;
use crate::game::faction::FactionID;
use crate::game::fleet::battle::{
    Battle, BattleID, FactionFleets, spec_has_target, spec_in_battle, spec_is_target, spec_set_quantity, spec_well_formed,
    spec_same_but_squadrons,
};
use crate::game::fleet::fleet::{Fleet, FleetID};
use crate::game::fleet::formation::{FleetFormation, spec_attack_order};
use crate::game::fleet::squadron::{FleetSquadron, FleetSquadronID};
use crate::game::ship::model::spec_ship_model;

verus! {

/// What a fleet did in a round.
#[derive(Debug, Clone, Copy, PartialEq, Eq, Structural)]
pub enum FleetActionKind {
    Join,
    Retreat,
    Surrender,
}

#[derive(Debug, Clone, Copy, PartialEq, Eq, Structural)]
pub struct FleetAction {
    pub fleet: FleetID,
    pub battle: BattleID,
    pub kind: FleetActionKind,
    pub round_number: u16,
}

/// What a squadron did in a round: it attacked `target` and destroyed `loss` ships.
#[derive(Debug, Clone, Copy, PartialEq, Eq, Structural)]
pub enum SquadronActionKind {
    Attack { target: FleetSquadronID, loss: u16 },
}

#[derive(Debug, Clone, Copy, PartialEq, Eq, Structural)]
pub struct SquadronAction {
    pub squadron: FleetSquadronID,
    pub battle: BattleID,
    pub kind: SquadronActionKind,
    pub round_number: u16,
}

/// One round of a battle and what happened in it.
#[derive(Debug, Clone)]
pub struct Round {
    pub battle: BattleID,
    pub number: u16,
    pub fleet_actions: Vec<FleetAction>,
    pub squadron_actions: Vec<SquadronAction>,
}

/// What `damage` points of damage do to a squadron of `quantity` ships
/// with `hit_points` each: `(remaining, loss)`. Every whole `hit_points` of
/// damage destroys one ship; overkill is lost, a squadron never drops below
/// zero ships, and then all its ships count as lost.
pub open spec fn spec_resolve_fire(quantity: u16, damage: u16, hit_points: u16) -> (u16, u16) {
    let casualties = damage / hit_points;
    if casualties > quantity {
        (0, quantity)
    } else {
        ((quantity - casualties) as u16, casualties as u16)
    }
}

/// The outcome of a volley (see `spec_resolve_fire`). The number of
/// casualties is the whole part of `damage / hit_points`.
pub fn resolve_fire(quantity: u16, damage: u16, hit_points: u16) -> (r: (u16, u16))
    requires
        hit_points > 0,
    ensures
        r == spec_resolve_fire(quantity, damage, hit_points),
        r.0 + r.1 == quantity,
        r.1 <= quantity,
{
    let casualties: u16 = damage / hit_points;
    if casualties > quantity {
        return (0, quantity);
    }
    (quantity - casualties, casualties)
}

impl Round {
    /// Round `number` of battle `battle_id`, before anything happened in it.
    pub fn new(battle_id: BattleID, number: u16) -> (r: Round)
        ensures
            r.battle == battle_id,
            r.number == number,
            r.fleet_actions@.len() == 0,
            r.squadron_actions@.len() == 0,
    {
        Round { battle: battle_id, fleet_actions: Vec::new(), squadron_actions: Vec::new(), number }
    }

    /// The seconds before the round is played: the first round leaves the
    /// fleets three seconds to prepare, the others one.
    pub fn preparation_seconds(&self) -> (s: i64)
        ensures
            s == (if self.number == 1 { 3i64 } else { 1i64 }),
    {
        if 1 == self.number {
            3
        } else {
            1
        }
    }

    /// Records that each of `new_fleets` joined the battle this round.
    pub fn record_arrivals(&mut self, battle: BattleID, new_fleets: &Vec<Fleet>)
        ensures
            final(self).fleet_actions@.len() == old(self).fleet_actions@.len() + new_fleets@.len(),
            forall|m: int| 0 <= m < old(self).fleet_actions@.len() ==> final(self).fleet_actions@[m] == old(self).fleet_actions@[m],
            forall|m: int|
                0 <= m < new_fleets@.len() ==> #[trigger] final(self).fleet_actions@[old(self).fleet_actions@.len() + m]
                    == (FleetAction {
                    battle,
                    fleet: new_fleets@[m].id,
                    kind: FleetActionKind::Join,
                    round_number: old(self).number,
                }),
            final(self).number == old(self).number,
            final(self).battle == old(self).battle,
            final(self).squadron_actions@ == old(self).squadron_actions@,
    {
        let ghost start = self.fleet_actions@;
        let mut i: usize = 0;
        while i < new_fleets.len()
            invariant
                i <= new_fleets@.len(),
                self.fleet_actions@.len() == start.len() + i,
                forall|m: int| 0 <= m < start.len() ==> self.fleet_actions@[m] == start[m],
                forall|m: int|
                    0 <= m < i ==> #[trigger] self.fleet_actions@[start.len() + m] == (FleetAction {
                        battle,
                        fleet: new_fleets@[m].id,
                        kind: FleetActionKind::Join,
                        round_number: self.number,
                    }),
                self.number == old(self).number,
                self.battle == old(self).battle,
                self.squadron_actions@ == old(self).squadron_actions@,
            decreases new_fleets@.len() - i,
        {
            self.fleet_actions.push(
                FleetAction { battle, fleet: new_fleets[i].id, kind: FleetActionKind::Join, round_number: self.number },
            );
            i = i + 1;
        }
    }
}

/// `action` was made in round `number` of battle `battle` by one of the
/// squadrons of `order`.
pub open spec fn spec_made_by_one_of(
    action: SquadronAction,
    order: Seq<(FactionID, FleetSquadron)>,
    battle: BattleID,
    number: u16,
) -> bool {
    exists|x: int|
        0 <= x < order.len() && action.squadron == (#[trigger] order[x]).1.id && action.battle == battle
            && action.round_number == number
}

/// The actions of `acts` that were made, in order.
pub open spec fn spec_made(acts: Seq<Option<SquadronAction>>) -> Seq<SquadronAction>
    decreases acts.len(),
{
    if acts.len() == 0 {
        Seq::empty()
    } else {
        spec_made(acts.drop_last()) + match acts.last() {
            Some(a) => seq![a],
            None => Seq::empty(),
        }
    }
}

/// The first `acts.len()` turns of `order`, one after the other: turn `x`
/// is the attack (see `spec_attack_step`) of `order[x]`, which takes the
/// fleets from `bs[x]` to `bs[x + 1]` and gives `acts[x]`.
pub open spec fn spec_turns<F: Fn(&FleetSquadron, &FleetSquadron) -> u16>(
    bs: Seq<Seq<FactionFleets>>,
    acts: Seq<Option<SquadronAction>>,
    order: Seq<(FactionID, FleetSquadron)>,
    battle: BattleID,
    round_number: u16,
    excluded: Seq<FleetID>,
    damage: F,
) -> bool {
    &&& bs.len() == acts.len() + 1
    &&& acts.len() <= order.len()
    &&& forall|x: int|
        0 <= x < acts.len() ==> spec_attack_step(
            bs[x],
            bs[x + 1],
            battle,
            order[x].0,
            order[x].1,
            round_number,
            excluded,
            damage,
            #[trigger] acts[x],
        )
}

/// A round of battle `battle` played on the fleets `before`, with the
/// squadrons of `order` taking their turns in that order and the fleets of
/// `excluded` left out of the fight: it ends on the fleets `after`, and
/// `actions` are the attacks made, in order.
pub open spec fn spec_round<F: Fn(&FleetSquadron, &FleetSquadron) -> u16>(
    before: Seq<FactionFleets>,
    after: Seq<FactionFleets>,
    order: Seq<(FactionID, FleetSquadron)>,
    battle: BattleID,
    round_number: u16,
    excluded: Seq<FleetID>,
    damage: F,
    actions: Seq<SquadronAction>,
) -> bool {
    exists|bs: Seq<Seq<FactionFleets>>, acts: Seq<Option<SquadronAction>>|
        #[trigger] spec_turns(bs, acts, order, battle, round_number, excluded, damage) && acts.len() == order.len()
            && bs[0] == before && bs[order.len() as int] == after && actions == spec_made(acts)
}

impl Round {
    /// Plays the round: the fleets of `new_fleets` join the battle (they
    /// neither attack nor are attacked in their first round), then each
    /// squadron of `order` takes its turn in that order, attacking as
    /// `attack` describes with the ships it held when the round began, on
    /// the battle as the turns before it left it (see `spec_round`). The
    /// attacks made are recorded in that order.
    pub fn fight<F: Fn(&FleetSquadron, &FleetSquadron) -> u16>(
        &mut self,
        battle: &mut Battle,
        new_fleets: &Vec<Fleet>,
        order: &Vec<(FactionID, FleetSquadron)>,
        damage: &F,
    )
        requires
            spec_well_formed(old(battle).fleets@),
            forall|a: &FleetSquadron, t: &FleetSquadron| call_requires(*damage, (a, t)),
        ensures
            spec_well_formed(final(battle).fleets@),
            final(battle).fleets@.len() == old(battle).fleets@.len(),
            spec_round(
                old(battle).fleets@,
                final(battle).fleets@,
                order@,
                old(battle).id,
                old(self).number,
                new_fleets@.map_values(|f: Fleet| f.id),
                *damage,
                final(self).squadron_actions@.subrange(
                    old(self).squadron_actions@.len() as int,
                    final(self).squadron_actions@.len() as int,
                ),
            ),
            final(battle).id == old(battle).id,
            final(battle).system == old(battle).system,
            final(battle).attacker == old(battle).attacker,
            final(battle).defender_faction == old(battle).defender_faction,
            final(battle).victor == old(battle).victor,
            final(battle).rounds@ == old(battle).rounds@,
            final(battle).begun_at == old(battle).begun_at,
            final(battle).ended_at == old(battle).ended_at,
            final(self).number == old(self).number,
            final(self).battle == old(self).battle,
            final(self).fleet_actions@.len() == old(self).fleet_actions@.len() + new_fleets@.len(),
            forall|m: int| 0 <= m < old(self).fleet_actions@.len() ==> final(self).fleet_actions@[m] == old(self).fleet_actions@[m],
            forall|m: int|
                0 <= m < new_fleets@.len() ==> #[trigger] final(self).fleet_actions@[old(self).fleet_actions@.len() + m]
                    == (FleetAction {
                    battle: old(battle).id,
                    fleet: new_fleets@[m].id,
                    kind: FleetActionKind::Join,
                    round_number: old(self).number,
                }),
            old(self).squadron_actions@.len() <= final(self).squadron_actions@.len() <= old(self).squadron_actions@.len()
                + order@.len(),
            forall|m: int| 0 <= m < old(self).squadron_actions@.len() ==> final(self).squadron_actions@[m] == old(self).squadron_actions@[m],
            forall|m: int|
                old(self).squadron_actions@.len() <= m < final(self).squadron_actions@.len() ==> spec_made_by_one_of(
                    #[trigger] final(self).squadron_actions@[m],
                    order@,
                    old(battle).id,
                    old(self).number,
                ),
    {
        let battle_id = battle.id;
        self.record_arrivals(battle_id, new_fleets);
        let mut excluded: Vec<FleetID> = Vec::new();
        let mut i: usize = 0;
        while i < new_fleets.len()
            invariant
                i <= new_fleets@.len(),
                excluded@.len() == i,
                forall|m: int| 0 <= m < i ==> excluded@[m] == new_fleets@[m].id,
            decreases new_fleets@.len() - i,
        {
            excluded.push(new_fleets[i].id);
            i = i + 1;
        }
        assert(excluded@ =~= new_fleets@.map_values(|f: Fleet| f.id));
        let ghost start = self.squadron_actions@;
        let ghost mut source: Seq<int> = Seq::empty();
        let ghost mut bs: Seq<Seq<FactionFleets>> = seq![battle.fleets@];
        let ghost mut acts: Seq<Option<SquadronAction>> = Seq::empty();
        let mut x: usize = 0;
        while x < order.len()
            invariant
                x <= order@.len(),
                spec_well_formed(battle.fleets@),
                battle.id == battle_id,
                battle.id == old(battle).id,
                battle.fleets@.len() == old(battle).fleets@.len(),
                battle.system == old(battle).system,
                battle.attacker == old(battle).attacker,
                battle.defender_faction == old(battle).defender_faction,
                battle.victor == old(battle).victor,
                battle.rounds@ == old(battle).rounds@,
                battle.begun_at == old(battle).begun_at,
                battle.ended_at == old(battle).ended_at,
                forall|a: &FleetSquadron, t: &FleetSquadron| call_requires(*damage, (a, t)),
                excluded@ == new_fleets@.map_values(|f: Fleet| f.id),
                acts.len() == x,
                bs[0] == old(battle).fleets@,
                bs[x as int] == battle.fleets@,
                spec_turns(bs, acts, order@, battle_id, self.number, excluded@, *damage),
                self.squadron_actions@ == start + spec_made(acts),
                start.len() <= self.squadron_actions@.len() <= start.len() + x,
                forall|m: int| 0 <= m < start.len() ==> self.squadron_actions@[m] == start[m],
                source.len() == self.squadron_actions@.len() - start.len(),
                forall|m: int|
                    0 <= m < source.len() ==> 0 <= #[trigger] source[m] < x && self.squadron_actions@[start.len()
                        + m].squadron == order@[source[m]].1.id && self.squadron_actions@[start.len() + m].battle
                        == battle_id && self.squadron_actions@[start.len() + m].round_number == self.number,
                self.number == old(self).number,
                self.battle == old(self).battle,
                self.fleet_actions@.len() == old(self).fleet_actions@.len() + new_fleets@.len(),
                forall|m: int| 0 <= m < old(self).fleet_actions@.len() ==> self.fleet_actions@[m] == old(self).fleet_actions@[m],
                forall|m: int|
                    0 <= m < new_fleets@.len() ==> #[trigger] self.fleet_actions@[old(self).fleet_actions@.len() + m]
                        == (FleetAction {
                        battle: old(battle).id,
                        fleet: new_fleets@[m].id,
                        kind: FleetActionKind::Join,
                        round_number: old(self).number,
                    }),
            decreases order@.len() - x,
        {
            let (fid, squadron) = order[x];
            let ghost before = battle.fleets@;
            let result = attack(battle, fid, &squadron, self.number, &excluded, damage);
            proof {
                let bs2 = bs.push(battle.fleets@);
                let acts2 = acts.push(result);
                assert forall|y: int|
                    0 <= y < acts2.len() implies spec_attack_step(
                    bs2[y],
                    bs2[y + 1],
                    battle_id,
                    order@[y].0,
                    order@[y].1,
                    self.number,
                    excluded@,
                    *damage,
                    #[trigger] acts2[y],
                ) by {
                    if y < acts.len() {
                        assert(acts2[y] == acts[y]);
                        assert(bs2[y] == bs[y] && bs2[y + 1] == bs[y + 1]);
                    } else {
                        assert(y == x);
                        assert(bs2[y] == before && bs2[y + 1] == battle.fleets@);
                    }
                }
                assert(acts2.drop_last() =~= acts);
                bs = bs2;
                acts = acts2;
            }
            if let Some(action) = result {
                self.squadron_actions.push(action);
                proof {
                    source = source.push(x as int);
                }
            }
            proof {
                assert(self.squadron_actions@ =~= start + spec_made(acts));
            }
            x = x + 1;
        }
        assert forall|m: int|
            old(self).squadron_actions@.len() <= m < self.squadron_actions@.len() implies spec_made_by_one_of(
                #[trigger] self.squadron_actions@[m],
                order@,
                old(battle).id,
                old(self).number,
            ) by {
            let xx = source[m - start.len()];
            assert(start.len() + (m - start.len()) == m);
            assert(0 <= xx < order@.len());
        }
        assert(self.squadron_actions@.subrange(start.len() as int, self.squadron_actions@.len() as int) =~= spec_made(acts));
        assert(spec_turns(bs, acts, order@, battle_id, self.number, excluded@, *damage));
    }
}

/// One squadron's turn, from the fleets `before` to the fleets `after`:
/// `attacker`, of faction `fid`, looks for a target along its attack order
/// (see `Battle::pick_target_squadron`); with none, nothing changes and `r`
/// is `None`. Otherwise it deals the target `t` the damage `d` that `damage`
/// computes for the pair, the target is left with what the volley spares
/// (see `spec_resolve_fire`), every other squadron stays as it was, and `r`
/// records the attack as made in round `round_number` of battle `battle`.
pub open spec fn spec_attack_step<F: Fn(&FleetSquadron, &FleetSquadron) -> u16>(
    before: Seq<FactionFleets>,
    after: Seq<FactionFleets>,
    battle: BattleID,
    fid: FactionID,
    attacker: FleetSquadron,
    round_number: u16,
    excluded: Seq<FleetID>,
    damage: F,
    r: Option<SquadronAction>,
) -> bool {
    &&& spec_well_formed(after)
    &&& after.len() == before.len()
    &&& r is None ==> forall|m: int|
        0 <= m < 4 ==> !spec_has_target(before, fid, #[trigger] spec_attack_order(attacker.formation)[m], excluded)
    &&& r is None ==> forall|g: FleetFormation| !#[trigger] spec_has_target(before, fid, g, excluded)
    &&& r is None ==> after == before
    &&& r matches Some(action) ==> exists|tf: FactionID, t: FleetSquadron, d: u16|
        #![trigger call_ensures(damage, (&attacker, &t), d), spec_in_battle(before, tf, t)]
        call_ensures(damage, (&attacker, &t), d) && spec_in_battle(before, tf, t) && tf != fid && spec_is_target(
            t,
            t.formation,
            excluded,
        ) && (exists|m: int|
            0 <= m < 4 && t.formation == spec_attack_order(attacker.formation)[m] && forall|mm: int|
                0 <= mm < m ==> !spec_has_target(before, fid, #[trigger] spec_attack_order(attacker.formation)[mm], excluded))
            && {
            let (remaining, loss) = spec_resolve_fire(t.quantity, d, spec_ship_model(t.category).hit_points);
            &&& action == (SquadronAction {
                battle,
                squadron: attacker.id,
                kind: SquadronActionKind::Attack { target: t.id, loss },
                round_number,
            })
            &&& forall|i: int, j: int|
                0 <= i < after.len() && 0 <= j < after[i].1@.len() ==> {
                    let n = #[trigger] after[i].1@[j];
                    let o = before[i].1@[j];
                    &&& after[i].0 == before[i].0
                    &&& spec_same_but_squadrons(n, o)
                    &&& n.squadrons@ == if before[i].0 == tf && o.id == t.fleet {
                        spec_set_quantity(o.squadrons@, t.id, remaining)
                    } else {
                        o.squadrons@
                    }
                }
        }
}

/// One squadron's turn (see `spec_attack_step`); only the fleets of the
/// battle change.
pub fn attack<F: Fn(&FleetSquadron, &FleetSquadron) -> u16>(
    battle: &mut Battle,
    fid: FactionID,
    attacker: &FleetSquadron,
    round_number: u16,
    excluded_fleets: &Vec<FleetID>,
    damage: &F,
) -> (r: Option<SquadronAction>)
    requires
        spec_well_formed(old(battle).fleets@),
        forall|a: &FleetSquadron, t: &FleetSquadron| call_requires(*damage, (a, t)),
    ensures
        spec_attack_step(
            old(battle).fleets@,
            final(battle).fleets@,
            old(battle).id,
            fid,
            *attacker,
            round_number,
            excluded_fleets@,
            *damage,
            r,
        ),
        final(battle).id == old(battle).id,
        final(battle).system == old(battle).system,
        final(battle).attacker == old(battle).attacker,
        final(battle).defender_faction == old(battle).defender_faction,
        final(battle).victor == old(battle).victor,
        final(battle).rounds@ == old(battle).rounds@,
        final(battle).begun_at == old(battle).begun_at,
        final(battle).ended_at == old(battle).ended_at,
{
    let target = battle.pick_target_squadron(fid, attacker, excluded_fleets);
    match target {
        None => None,
        Some((tf, t)) => {
            let d = damage(attacker, &t);
            let hit_points = t.category.to_data().hit_points;
            let (remaining, loss) = resolve_fire(t.quantity, d, hit_points);
            proof {
                let (i, j, k) = choose|i: int, j: int, k: int|
                    0 <= i < battle.fleets@.len() && battle.fleets@[i].0 == tf && 0 <= j < battle.fleets@[i].1@.len()
                        && 0 <= k < battle.fleets@[i].1@[j].squadrons@.len() && #[trigger] battle.fleets@[i].1@[j].squadrons@[k]
                        == t;
                assert(battle.fleets@[i].1@[j].id == t.fleet);
            }
            battle.set_squadron_quantity(tf, t, remaining);
            Some(
                SquadronAction {
                    battle: battle.id,
                    squadron: attacker.id,
                    kind: SquadronActionKind::Attack { target: t.id, loss },
                    round_number,
                },
            )
        },
    }
}

} // verus!
