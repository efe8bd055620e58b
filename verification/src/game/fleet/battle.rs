use vstd::prelude::*;
use crate::util::error::{Entity, InternalError};
use crate::util::time::Time;
use crate::game::faction::FactionID;
use crate::game::fleet::fleet::{Fleet, FleetID, spec_has_ships};
use crate::game::fleet::squadron::{FleetSquadron, FleetSquadronID};
use crate::game::fleet::formation::{FleetFormation, lemma_attack_order_covers, spec_attack_order};
use crate::util::random::random_index;
use crate::game::fleet::round::Round;
use crate::game::player::{Player, PlayerID};
use crate::game::system::system::SystemID;

verus! {

#[derive(Debug, Clone, Copy, PartialEq, Eq, Hash, Structural)]
pub struct BattleID(pub u128);

/// The fleets of one faction taking part in a battle.
pub type FactionFleets = (FactionID, Vec<Fleet>);

/// A battle in a system. `fleets` holds the fleets still in the fray, grouped
/// by faction, one group per faction.
#[derive(Debug, Clone)]
pub struct Battle {
    pub id: BattleID,
    pub system: SystemID,
    pub attacker: FleetID,
    pub fleets: Vec<FactionFleets>,
    pub rounds: Vec<Round>,
    pub defender_faction: Option<FactionID>,
    pub victor: Option<FactionID>,
    pub begun_at: Time,
    pub ended_at: Option<Time>,
}

/// The battle report a player receives.
#[derive(Debug, Clone, Copy, PartialEq, Eq, Structural)]
pub struct Report {
    pub player: PlayerID,
    pub battle: BattleID,
}

/// Some fleet of `fleets` still holds ships.
pub open spec fn spec_group_has_ships(fleets: Seq<Fleet>) -> bool {
    exists|j: int| 0 <= j < fleets.len() && spec_has_ships(#[trigger] fleets[j].squadrons@)
}

/// The identifiers of the fleets of some groups, group after group.
pub open spec fn spec_fleet_ids(groups: Seq<FactionFleets>) -> Seq<FleetID>
    decreases groups.len(),
{
    if groups.len() == 0 {
        Seq::empty()
    } else {
        spec_fleet_ids(groups.drop_last()) + groups.last().1@.map_values(|f: Fleet| f.id)
    }
}

/// The squadrons of `s` that still hold ships, each paired with faction `f`.
pub open spec fn spec_fighting_in_squadrons(f: FactionID, s: Seq<FleetSquadron>) -> Seq<(FactionID, FleetSquadron)>
    decreases s.len(),
{
    if s.len() == 0 {
        Seq::empty()
    } else {
        spec_fighting_in_squadrons(f, s.drop_last()) + if s.last().quantity > 0 {
            seq![(f, s.last())]
        } else {
            Seq::empty()
        }
    }
}

/// The squadrons of the fleets `fl` that still hold ships, each paired with faction `f`.
pub open spec fn spec_fighting_in_fleets(f: FactionID, fl: Seq<Fleet>) -> Seq<(FactionID, FleetSquadron)>
    decreases fl.len(),
{
    if fl.len() == 0 {
        Seq::empty()
    } else {
        spec_fighting_in_fleets(f, fl.drop_last()) + spec_fighting_in_squadrons(f, fl.last().squadrons@)
    }
}

/// Every squadron of a battle that still holds ships, with its faction,
/// group after group, fleet after fleet.
pub open spec fn spec_fighting(groups: Seq<FactionFleets>) -> Seq<(FactionID, FleetSquadron)>
    decreases groups.len(),
{
    if groups.len() == 0 {
        Seq::empty()
    } else {
        spec_fighting(groups.drop_last()) + spec_fighting_in_fleets(groups.last().0, groups.last().1@)
    }
}

/// The owners of the fleets of a battle, fleet after fleet (with repeats).
pub open spec fn spec_owners(groups: Seq<FactionFleets>) -> Seq<PlayerID>
    decreases groups.len(),
{
    if groups.len() == 0 {
        Seq::empty()
    } else {
        spec_owners(groups.drop_last()) + groups.last().1@.map_values(|fl: Fleet| fl.player)
    }
}

/// `s` with every repeat of an earlier item left out.
pub open spec fn spec_dedup<T>(s: Seq<T>) -> Seq<T>
    decreases s.len(),
{
    if s.len() == 0 {
        Seq::empty()
    } else {
        let d = spec_dedup(s.drop_last());
        if d.contains(s.last()) {
            d
        } else {
            d.push(s.last())
        }
    }
}

/// Deduplication keeps each item once: the result holds exactly the items of
/// `s`, none of them twice.
pub proof fn lemma_dedup<T>(s: Seq<T>)
    ensures
        spec_dedup(s).no_duplicates(),
        forall|x: T| spec_dedup(s).contains(x) <==> s.contains(x),
    decreases s.len(),
{
    if s.len() > 0 {
        lemma_dedup(s.drop_last());
        let d = spec_dedup(s.drop_last());
        assert forall|x: T| spec_dedup(s).contains(x) <==> s.contains(x) by {
            if s.contains(x) {
                let k = choose|k: int| 0 <= k < s.len() && s[k] == x;
                if k < s.len() - 1 {
                    assert(s.drop_last()[k] == x);
                }
            }
            if s.drop_last().contains(x) {
                let k = choose|k: int| 0 <= k < s.drop_last().len() && s.drop_last()[k] == x;
                assert(s[k] == x);
            }
            if !d.contains(s.last()) {
                if spec_dedup(s).contains(x) && x != s.last() {
                    let k = choose|k: int| 0 <= k < spec_dedup(s).len() && spec_dedup(s)[k] == x;
                    assert(d[k] == x);
                }
                if d.contains(x) {
                    let k = choose|k: int| 0 <= k < d.len() && d[k] == x;
                    assert(spec_dedup(s)[k] == x);
                }
                assert(spec_dedup(s)[d.len() as int] == s.last());
            }
        }
    }
}

/// The fleets of `fl` that still hold ships.
pub open spec fn spec_surviving(fl: Seq<Fleet>) -> Seq<Fleet>
    decreases fl.len(),
{
    if fl.len() == 0 {
        Seq::empty()
    } else {
        spec_surviving(fl.drop_last()) + if spec_has_ships(fl.last().squadrons@) {
            seq![fl.last()]
        } else {
            Seq::empty()
        }
    }
}

/// The groups of a battle once the destroyed fleets are taken out: each
/// group keeps its surviving fleets, and a faction without any leaves.
pub open spec fn spec_remaining(groups: Seq<(FactionID, Seq<Fleet>)>) -> Seq<(FactionID, Seq<Fleet>)>
    decreases groups.len(),
{
    if groups.len() == 0 {
        Seq::empty()
    } else {
        let kept = spec_surviving(groups.last().1);
        spec_remaining(groups.drop_last()) + if kept.len() > 0 {
            seq![(groups.last().0, kept)]
        } else {
            Seq::empty()
        }
    }
}

/// The groups of a battle, each with the sequence of its fleets.
pub open spec fn spec_groups(groups: Seq<FactionFleets>) -> Seq<(FactionID, Seq<Fleet>)> {
    groups.map_values(|g: FactionFleets| (g.0, g.1@))
}

/// The faction of the player `pid` among `players` (the first player with
/// that identifier), when the player is there and has one.
pub open spec fn spec_owner_faction(players: Seq<Player>, pid: PlayerID) -> Option<FactionID>
    decreases players.len(),
{
    if players.len() == 0 {
        None
    } else if players[0].id == pid {
        players[0].faction
    } else {
        spec_owner_faction(players.drop_first(), pid)
    }
}

/// The fleets of `fl` whose owner belongs to faction `f`, in order.
pub open spec fn spec_fleets_of(players: Seq<Player>, fl: Seq<Fleet>, f: FactionID) -> Seq<Fleet>
    decreases fl.len(),
{
    if fl.len() == 0 {
        Seq::empty()
    } else {
        spec_fleets_of(players, fl.drop_last(), f) + if spec_owner_faction(players, fl.last().player) == Some(f) {
            seq![fl.last()]
        } else {
            Seq::empty()
        }
    }
}

/// Some group belongs to the faction of player `pid`.
pub open spec fn spec_covered(groups: Seq<FactionFleets>, players: Seq<Player>, pid: PlayerID) -> bool {
    exists|a: int| 0 <= a < groups.len() && Some(#[trigger] groups[a].0) == spec_owner_faction(players, pid)
}

/// No two groups belong to the same faction.
pub open spec fn spec_distinct_factions(groups: Seq<FactionFleets>) -> bool {
    forall|a: int, b: int| 0 <= a < b < groups.len() ==> groups[a].0 != groups[b].0
}

/// The groups of a battle are told apart by their faction, and the fleets of
/// a group by their identifier; each squadron names the fleet it belongs to.
pub open spec fn spec_well_formed(groups: Seq<FactionFleets>) -> bool {
    &&& spec_distinct_factions(groups)
    &&& forall|i: int, a: int, b: int|
        0 <= i < groups.len() && 0 <= a < b < groups[i].1@.len() ==> #[trigger] groups[i].1@[a].id
            != #[trigger] groups[i].1@[b].id
    &&& forall|i: int, j: int, k: int|
        0 <= i < groups.len() && 0 <= j < groups[i].1@.len() && 0 <= k < groups[i].1@[j].squadrons@.len()
            ==> (#[trigger] groups[i].1@[j].squadrons@[k]).fleet == groups[i].1@[j].id
}

/// A squadron that an attacker looking at formation `form` may target.
pub open spec fn spec_is_target(s: FleetSquadron, form: FleetFormation, excluded: Seq<FleetID>) -> bool {
    s.formation == form && s.quantity > 0 && !excluded.contains(s.fleet)
}

/// Some squadron of the fleets `fl` may be targeted at `form`.
pub open spec fn spec_target_in_fleets(fl: Seq<Fleet>, form: FleetFormation, excluded: Seq<FleetID>) -> bool {
    exists|j: int, k: int|
        0 <= j < fl.len() && 0 <= k < fl[j].squadrons@.len() && spec_is_target(
            #[trigger] fl[j].squadrons@[k],
            form,
            excluded,
        )
}

/// Some squadron of a faction other than `fid` may be targeted at `form`.
pub open spec fn spec_has_target(groups: Seq<FactionFleets>, fid: FactionID, form: FleetFormation, excluded: Seq<FleetID>) -> bool {
    exists|i: int| 0 <= i < groups.len() && groups[i].0 != fid && spec_target_in_fleets(#[trigger] groups[i].1@, form, excluded)
}

/// Squadron `s` belongs to a fleet of faction `f` in the battle.
pub open spec fn spec_in_battle(groups: Seq<FactionFleets>, f: FactionID, s: FleetSquadron) -> bool {
    exists|i: int, j: int, k: int|
        0 <= i < groups.len() && groups[i].0 == f && 0 <= j < groups[i].1@.len() && 0 <= k
            < groups[i].1@[j].squadrons@.len() && #[trigger] groups[i].1@[j].squadrons@[k] == s
}

/// The squadrons of `s`, those identified by `id` holding `q` ships.
pub open spec fn spec_set_quantity(s: Seq<FleetSquadron>, id: FleetSquadronID, q: u16) -> Seq<FleetSquadron> {
    s.map_values(|x: FleetSquadron| if x.id == id { FleetSquadron { quantity: q, ..x } } else { x })
}

/// Fleet `n` is fleet `o`, but for its squadrons.
pub open spec fn spec_same_but_squadrons(n: Fleet, o: Fleet) -> bool {
    &&& n.id == o.id
    &&& n.system == o.system
    &&& n.destination_system == o.destination_system
    &&& n.destination_arrival_date == o.destination_arrival_date
    &&& n.player == o.player
    &&& n.is_destroyed == o.is_destroyed
}

fn faction_of(players: &Vec<Player>, pid: PlayerID) -> (f: FactionID)
    requires
        spec_owner_faction(players@, pid) is Some,
    ensures
        Some(f) == spec_owner_faction(players@, pid),
{
    let mut i: usize = 0;
    assert(players@.skip(0) =~= players@);
    while i < players.len()
        invariant
            i <= players@.len(),
            spec_owner_faction(players@, pid) is Some,
            spec_owner_faction(players@, pid) == spec_owner_faction(players@.skip(i as int), pid),
        decreases players@.len() - i,
    {
        proof {
            assert(players@.skip(i as int).drop_first() =~= players@.skip(i + 1));
            assert(players@.skip(i as int)[0] == players@[i as int]);
        }
        if players[i].id == pid {
            return players[i].faction.unwrap();
        }
        i = i + 1;
    }
    proof {
        assert(players@.skip(i as int).len() == 0);
    }
    players[0].faction.unwrap()
}

fn vec_contains_fleet(ids: &Vec<FleetID>, id: FleetID) -> (b: bool)
    ensures
        b == ids@.contains(id),
{
    let mut i: usize = 0;
    while i < ids.len()
        invariant
            i <= ids@.len(),
            forall|m: int| 0 <= m < i ==> ids@[m] != id,
        decreases ids@.len() - i,
    {
        if ids[i] == id {
            assert(ids@[i as int] == id);
            return true;
        }
        i = i + 1;
    }
    false
}

fn collect_targets(
    f: FactionID,
    fl: &Vec<Fleet>,
    form: FleetFormation,
    excluded: &Vec<FleetID>,
    out: &mut Vec<(FactionID, FleetSquadron)>,
)
    ensures
        final(out)@.len() >= old(out)@.len(),
        forall|m: int| 0 <= m < old(out)@.len() ==> final(out)@[m] == old(out)@[m],
        forall|m: int|
            old(out)@.len() <= m < final(out)@.len() ==> (#[trigger] final(out)@[m]).0 == f && spec_is_target(
                final(out)@[m].1,
                form,
                excluded@,
            ) && exists|j: int, k: int|
                0 <= j < fl@.len() && 0 <= k < fl@[j].squadrons@.len() && #[trigger] fl@[j].squadrons@[k]
                    == final(out)@[m].1,
        (final(out)@.len() > old(out)@.len()) <==> spec_target_in_fleets(fl@, form, excluded@),
{
    let ghost start = out@;
    let mut j: usize = 0;
    while j < fl.len()
        invariant
            j <= fl@.len(),
            out@.len() >= start.len(),
            forall|m: int| 0 <= m < start.len() ==> out@[m] == start[m],
            forall|m: int|
                start.len() <= m < out@.len() ==> (#[trigger] out@[m]).0 == f && spec_is_target(out@[m].1, form, excluded@)
                    && exists|jj: int, k: int|
                    0 <= jj < fl@.len() && 0 <= k < fl@[jj].squadrons@.len() && #[trigger] fl@[jj].squadrons@[k]
                        == out@[m].1,
            (out@.len() > start.len()) <==> exists|jj: int, k: int|
                0 <= jj < j && 0 <= k < fl@[jj].squadrons@.len() && spec_is_target(
                    #[trigger] fl@[jj].squadrons@[k],
                    form,
                    excluded@,
                ),
        decreases fl@.len() - j,
    {
        let squadrons = &fl[j].squadrons;
        let ghost before = out@;
        let mut k: usize = 0;
        while k < squadrons.len()
            invariant
                j < fl@.len(),
                squadrons == &fl@[j as int].squadrons,
                k <= squadrons@.len(),
                out@.len() >= before.len(),
                before.len() >= start.len(),
                forall|m: int| 0 <= m < before.len() ==> out@[m] == before[m],
                forall|m: int| 0 <= m < start.len() ==> before[m] == start[m],
                forall|m: int|
                    start.len() <= m < before.len() ==> (#[trigger] before[m]).0 == f && spec_is_target(before[m].1, form, excluded@)
                        && exists|jj: int, kk: int|
                        0 <= jj < fl@.len() && 0 <= kk < fl@[jj].squadrons@.len() && #[trigger] fl@[jj].squadrons@[kk]
                            == before[m].1,
                forall|m: int|
                    before.len() <= m < out@.len() ==> (#[trigger] out@[m]).0 == f && spec_is_target(out@[m].1, form, excluded@)
                        && exists|kk: int| 0 <= kk < k && #[trigger] squadrons@[kk] == out@[m].1,
                (out@.len() > before.len()) <==> exists|kk: int|
                    0 <= kk < k && spec_is_target(#[trigger] squadrons@[kk], form, excluded@),
                (before.len() > start.len()) <==> exists|jj: int, kk: int|
                    0 <= jj < j && 0 <= kk < fl@[jj].squadrons@.len() && spec_is_target(
                        #[trigger] fl@[jj].squadrons@[kk],
                        form,
                        excluded@,
                    ),
            decreases squadrons@.len() - k,
        {
            let s = squadrons[k];
            if s.formation == form && s.quantity > 0 && !vec_contains_fleet(excluded, s.fleet) {
                out.push((f, s));
                assert(squadrons@[k as int] == s);
            }
            k = k + 1;
        }
        proof {
            assert forall|m: int| start.len() <= m < out@.len() implies (#[trigger] out@[m]).0 == f && spec_is_target(
                out@[m].1,
                form,
                excluded@,
            ) && exists|jj: int, kk: int|
                0 <= jj < fl@.len() && 0 <= kk < fl@[jj].squadrons@.len() && #[trigger] fl@[jj].squadrons@[kk]
                    == out@[m].1 by {
                if m < before.len() {
                    assert(out@[m] == before[m]);
                } else {
                    let kk = choose|kk: int| 0 <= kk < k && #[trigger] squadrons@[kk] == out@[m].1;
                    assert(fl@[j as int].squadrons@[kk] == out@[m].1);
                }
            }
            if out@.len() > before.len() {
                let kk = choose|kk: int| 0 <= kk < k && spec_is_target(#[trigger] squadrons@[kk], form, excluded@);
                assert(spec_is_target(fl@[j as int].squadrons@[kk], form, excluded@));
            }
            if exists|jj: int, kk: int|
                0 <= jj < j + 1 && 0 <= kk < fl@[jj].squadrons@.len() && spec_is_target(
                    #[trigger] fl@[jj].squadrons@[kk],
                    form,
                    excluded@,
                ) {
                let (jj, kk) = choose|jj: int, kk: int|
                    0 <= jj < j + 1 && 0 <= kk < fl@[jj].squadrons@.len() && spec_is_target(
                        #[trigger] fl@[jj].squadrons@[kk],
                        form,
                        excluded@,
                    );
                if jj == j {
                    assert(spec_is_target(squadrons@[kk], form, excluded@));
                }
            }
        }
        j = j + 1;
    }
}

fn collect_fighting_squadrons(f: FactionID, s: &Vec<FleetSquadron>, out: &mut Vec<(FactionID, FleetSquadron)>)
    ensures
        final(out)@ == old(out)@ + spec_fighting_in_squadrons(f, s@),
{
    let ghost start = out@;
    let mut k: usize = 0;
    while k < s.len()
        invariant
            k <= s@.len(),
            out@ == start + spec_fighting_in_squadrons(f, s@.take(k as int)),
        decreases s@.len() - k,
    {
        proof {
            assert(s@.take(k + 1).drop_last() =~= s@.take(k as int));
        }
        if s[k].quantity > 0 {
            out.push((f, s[k]));
        }
        proof {
            assert(out@ =~= start + spec_fighting_in_squadrons(f, s@.take(k + 1)));
        }
        k = k + 1;
    }
    assert(s@.take(k as int) =~= s@);
}

fn collect_fighting_fleets(f: FactionID, fl: &Vec<Fleet>, out: &mut Vec<(FactionID, FleetSquadron)>)
    ensures
        final(out)@ == old(out)@ + spec_fighting_in_fleets(f, fl@),
{
    let ghost start = out@;
    let mut j: usize = 0;
    while j < fl.len()
        invariant
            j <= fl@.len(),
            out@ == start + spec_fighting_in_fleets(f, fl@.take(j as int)),
        decreases fl@.len() - j,
    {
        proof {
            assert(fl@.take(j + 1).drop_last() =~= fl@.take(j as int));
        }
        collect_fighting_squadrons(f, &fl[j].squadrons, out);
        proof {
            assert(out@ =~= start + spec_fighting_in_fleets(f, fl@.take(j + 1)));
        }
        j = j + 1;
    }
    assert(fl@.take(j as int) =~= fl@);
}

fn surviving_fleets(fl: Vec<Fleet>) -> (kept: Vec<Fleet>)
    ensures
        kept@ == spec_surviving(fl@),
{
    let ghost all = fl@;
    let mut fl = fl;
    let mut kept: Vec<Fleet> = Vec::new();
    let ghost mut done: int = 0;
    while fl.len() > 0
        invariant
            0 <= done <= all.len(),
            fl@ == all.skip(done),
            kept@ == spec_surviving(all.take(done)),
        decreases fl@.len(),
    {
        let fleet = fl.remove(0);
        proof {
            assert(all.take(done + 1).drop_last() =~= all.take(done));
            assert(all[done] == fleet);
        }
        if fleet.can_fight() {
            kept.push(fleet);
        }
        proof {
            assert(kept@ =~= spec_surviving(all.take(done + 1)));
            done = done + 1;
            assert(fl@ =~= all.skip(done));
        }
    }
    assert(all.take(done) =~= all);
    kept
}

/// `f` is the faction of the first group of `groups` whose fleets hold ships.
pub open spec fn spec_first_with_ships(groups: Seq<FactionFleets>, f: FactionID) -> bool {
    exists|i: int|
        0 <= i < groups.len() && groups[i].0 == f && spec_group_has_ships(groups[i].1@) && forall|k: int|
            0 <= k < i ==> !spec_group_has_ships(#[trigger] groups[k].1@)
}

/// All the fleets that `groups` holds for faction `f`, group after group.
pub open spec fn spec_faction_fleets(groups: Seq<FactionFleets>, f: FactionID) -> Seq<Fleet>
    decreases groups.len(),
{
    if groups.len() == 0 {
        Seq::empty()
    } else {
        spec_faction_fleets(groups.drop_last(), f) + if groups.last().0 == f {
            groups.last().1@
        } else {
            Seq::empty()
        }
    }
}

proof fn lemma_faction_fleets_at(groups: Seq<FactionFleets>, z: int, f: FactionID)
    requires
        spec_distinct_factions(groups),
        0 <= z < groups.len(),
        groups[z].0 == f,
    ensures
        spec_faction_fleets(groups, f) == groups[z].1@,
    decreases groups.len(),
{
    if z < groups.len() - 1 {
        lemma_faction_fleets_at(groups.drop_last(), z, f);
        assert(groups.last().0 != f);
        assert(spec_faction_fleets(groups, f) =~= spec_faction_fleets(groups.drop_last(), f));
    } else {
        lemma_faction_fleets_absent(groups.drop_last(), f);
        assert(spec_faction_fleets(groups, f) =~= groups.last().1@);
    }
}

proof fn lemma_faction_fleets_absent(groups: Seq<FactionFleets>, f: FactionID)
    requires
        forall|k: int| 0 <= k < groups.len() ==> (#[trigger] groups[k]).0 != f,
    ensures
        spec_faction_fleets(groups, f) == Seq::<Fleet>::empty(),
    decreases groups.len(),
{
    if groups.len() > 0 {
        lemma_faction_fleets_absent(groups.drop_last(), f);
        assert(groups[groups.len() - 1].0 != f);
        assert(spec_faction_fleets(groups, f) =~= Seq::<Fleet>::empty());
    }
}

proof fn lemma_faction_fleets_update(groups: Seq<FactionFleets>, z: int, x: FactionFleets, f: FactionID)
    requires
        spec_distinct_factions(groups),
        0 <= z < groups.len(),
        groups[z].0 == x.0,
        x.0 != f,
    ensures
        spec_faction_fleets(groups.update(z, x), f) == spec_faction_fleets(groups, f),
{
    let n = groups.update(z, x);
    assert(spec_distinct_factions(n));
    if exists|k: int| 0 <= k < groups.len() && groups[k].0 == f {
        let k = choose|k: int| 0 <= k < groups.len() && groups[k].0 == f;
        lemma_faction_fleets_at(groups, k, f);
        lemma_faction_fleets_at(n, k, f);
    } else {
        lemma_faction_fleets_absent(groups, f);
        assert forall|k: int| 0 <= k < n.len() implies (#[trigger] n[k]).0 != f by {
            if k != z {
                assert(n[k] == groups[k]);
            }
        }
        lemma_faction_fleets_absent(n, f);
    }
}

impl Battle {
    /// Brings fleets newly come to the battle into it, group by group: a
    /// faction already fighting sees its group grow, another faction
    /// gets a group of its own, after the others.
    pub fn join_fleets(&mut self, groups: Vec<FactionFleets>)
        requires
            spec_distinct_factions(old(self).fleets@),
        ensures
            spec_distinct_factions(final(self).fleets@),
            forall|f: FactionID|
                #[trigger] spec_faction_fleets(final(self).fleets@, f) == spec_faction_fleets(old(self).fleets@, f)
                    + spec_faction_fleets(groups@, f),
            final(self).id == old(self).id,
            final(self).system == old(self).system,
            final(self).attacker == old(self).attacker,
            final(self).rounds@ == old(self).rounds@,
            final(self).defender_faction == old(self).defender_faction,
            final(self).victor == old(self).victor,
            final(self).begun_at == old(self).begun_at,
            final(self).ended_at == old(self).ended_at,
    {
        let ghost start = self.fleets@;
        let ghost all = groups@;
        let mut groups = groups;
        let mut done: usize = 0;
        assert(all.skip(0) =~= all);
        assert(all.len() == groups.len());
        while groups.len() > 0
            invariant
                done <= all.len(),
                all.len() <= usize::MAX,
                groups@ == all.skip(done as int),
                spec_distinct_factions(self.fleets@),
                forall|f: FactionID|
                    #[trigger] spec_faction_fleets(self.fleets@, f) == spec_faction_fleets(start, f)
                        + spec_faction_fleets(all.take(done as int), f),
                self.id == old(self).id,
                self.system == old(self).system,
                self.attacker == old(self).attacker,
                self.rounds@ == old(self).rounds@,
                self.defender_faction == old(self).defender_faction,
                self.victor == old(self).victor,
                self.begun_at == old(self).begun_at,
                self.ended_at == old(self).ended_at,
            decreases groups@.len(),
        {
            let (gf, mut gv) = groups.remove(0);
            proof {
                assert(all[done as int] == (gf, gv));
                assert(all.take(done + 1).drop_last() =~= all.take(done as int));
                assert(groups@ =~= all.skip(done + 1));
            }
            let ghost before = self.fleets@;
            let mut z: usize = 0;
            while z < self.fleets.len()
                invariant
                    z <= self.fleets@.len(),
                    forall|b: int| 0 <= b < z ==> (#[trigger] self.fleets@[b]).0 != gf,
                ensures
                    z <= self.fleets@.len(),
                    forall|b: int| 0 <= b < z ==> (#[trigger] self.fleets@[b]).0 != gf,
                    z < self.fleets@.len() ==> self.fleets@[z as int].0 == gf,
                decreases self.fleets@.len() - z,
            {
                if self.fleets[z].0 == gf {
                    break;
                }
                z = z + 1;
            }
            if z < self.fleets.len() {
                let (ef, mut ev) = self.fleets.remove(z);
                let ghost old_ev = ev@;
                ev.append(&mut gv);
                self.fleets.insert(z, (ef, ev));
                proof {
                    let x = (ef, ev);
                    assert(self.fleets@ =~= before.update(z as int, x));
                    assert(spec_distinct_factions(self.fleets@));
                    assert forall|f: FactionID|
                        #[trigger] spec_faction_fleets(self.fleets@, f) == spec_faction_fleets(start, f)
                            + spec_faction_fleets(all.take(done + 1), f) by {
                        if f == gf {
                            lemma_faction_fleets_at(before, z as int, f);
                            lemma_faction_fleets_at(self.fleets@, z as int, f);
                            assert(spec_faction_fleets(all.take(done + 1), f) =~= spec_faction_fleets(
                                all.take(done as int),
                                f,
                            ) + all[done as int].1@);
                            assert(ev@ =~= old_ev + all[done as int].1@);
                            assert(spec_faction_fleets(start, f) + (spec_faction_fleets(all.take(done as int), f)
                                + all[done as int].1@) =~= (spec_faction_fleets(start, f) + spec_faction_fleets(
                                all.take(done as int),
                                f,
                            )) + all[done as int].1@);
                        } else {
                            lemma_faction_fleets_update(before, z as int, x, f);
                            assert(spec_faction_fleets(all.take(done + 1), f) =~= spec_faction_fleets(
                                all.take(done as int),
                                f,
                            ));
                        }
                    }
                }
            } else {
                self.fleets.push((gf, gv));
                proof {
                    assert(self.fleets@.drop_last() =~= before);
                    assert forall|f: FactionID|
                        #[trigger] spec_faction_fleets(self.fleets@, f) == spec_faction_fleets(start, f)
                            + spec_faction_fleets(all.take(done + 1), f) by {
                        if f == gf {
                            assert(spec_faction_fleets(all.take(done + 1), f) =~= spec_faction_fleets(
                                all.take(done as int),
                                f,
                            ) + all[done as int].1@);
                            assert(spec_faction_fleets(self.fleets@, f) =~= spec_faction_fleets(before, f) + gv@);
                            assert(spec_faction_fleets(start, f) + (spec_faction_fleets(all.take(done as int), f) + gv@)
                                =~= (spec_faction_fleets(start, f) + spec_faction_fleets(all.take(done as int), f)) + gv@);
                        } else {
                            assert(spec_faction_fleets(self.fleets@, f) =~= spec_faction_fleets(before, f));
                            assert(spec_faction_fleets(all.take(done + 1), f) =~= spec_faction_fleets(
                                all.take(done as int),
                                f,
                            ));
                        }
                    }
                }
            }
            done = done + 1;
        }
        proof {
            assert(all.take(done as int) =~= all);
        }
    }

    /// Ends the battle at `ended_at`, naming as victor the faction that
    /// `process_victor` finds; when none is found, the battle is left as it
    /// was.
    pub fn finish(&mut self, ended_at: Time) -> (r: Result<(), InternalError>)
        ensures
            r is Ok <==> exists|i: int| 0 <= i < old(self).fleets@.len() && spec_group_has_ships(old(self).fleets@[i].1@),
            r is Ok ==> (final(self).victor matches Some(f) && spec_first_with_ships(old(self).fleets@, f))
                && final(self).ended_at == Some(ended_at),
            r matches Err(e) ==> e == InternalError::NotFound(<FactionID as Entity>::ETYPE) && final(self).victor
                == old(self).victor && final(self).ended_at == old(self).ended_at,
            final(self).id == old(self).id,
            final(self).system == old(self).system,
            final(self).attacker == old(self).attacker,
            final(self).fleets@ == old(self).fleets@,
            final(self).rounds@ == old(self).rounds@,
            final(self).defender_faction == old(self).defender_faction,
            final(self).begun_at == old(self).begun_at,
    {
        let v = self.process_victor();
        match v {
            Ok(f) => {
                self.victor = Some(f);
                self.ended_at = Some(ended_at);
                Ok(())
            },
            Err(e) => Err(e),
        }
    }

    /// Whether the attackers won the battle, in which case the conquest of
    /// the system goes on.
    pub fn attackers_won(&self) -> (b: bool)
        ensures
            b == (self.victor != self.defender_faction),
    {
        self.victor != self.defender_faction
    }

    /// A battle is over once fewer than two factions have fleets left in it.
    pub fn is_over(&self) -> (b: bool)
        ensures
            b == (self.fleets@.len() < 2),
    {
        2 > self.fleets.len()
    }

    /// The identifiers of all the fleets in the battle.
    pub fn get_fleet_ids(&self) -> (ids: Vec<FleetID>)
        ensures
            ids@ == spec_fleet_ids(self.fleets@),
    {
        let mut ids: Vec<FleetID> = Vec::new();
        let mut i: usize = 0;
        while i < self.fleets.len()
            invariant
                i <= self.fleets@.len(),
                ids@ == spec_fleet_ids(self.fleets@.take(i as int)),
            decreases self.fleets@.len() - i,
        {
            let fleets = &self.fleets[i].1;
            let ghost before = ids@;
            let mut j: usize = 0;
            while j < fleets.len()
                invariant
                    j <= fleets@.len(),
                    fleets == &self.fleets@[i as int].1,
                    i < self.fleets@.len(),
                    ids@ == before + fleets@.take(j as int).map_values(|f: Fleet| f.id),
                decreases fleets@.len() - j,
            {
                ids.push(fleets[j].id);
                proof {
                    assert(fleets@.take(j + 1).map_values(|f: Fleet| f.id) =~= fleets@.take(j as int).map_values(
                        |f: Fleet| f.id,
                    ).push(fleets@[j as int].id));
                }
                j = j + 1;
            }
            proof {
                assert(fleets@.take(j as int) =~= fleets@);
                assert(self.fleets@.take(i + 1).drop_last() =~= self.fleets@.take(i as int));
            }
            i = i + 1;
        }
        assert(self.fleets@.take(i as int) =~= self.fleets@);
        ids
    }

    /// The squadrons still holding ships, each with its faction. The order
    /// in which they act is drawn elsewhere.
    pub fn get_fighting_squadrons(&self) -> (r: Vec<(FactionID, FleetSquadron)>)
        ensures
            r@ == spec_fighting(self.fleets@),
    {
        let mut out: Vec<(FactionID, FleetSquadron)> = Vec::new();
        let mut i: usize = 0;
        while i < self.fleets.len()
            invariant
                i <= self.fleets@.len(),
                out@ == spec_fighting(self.fleets@.take(i as int)),
            decreases self.fleets@.len() - i,
        {
            proof {
                assert(self.fleets@.take(i + 1).drop_last() =~= self.fleets@.take(i as int));
            }
            collect_fighting_fleets(self.fleets[i].0, &self.fleets[i].1, &mut out);
            i = i + 1;
        }
        assert(self.fleets@.take(i as int) =~= self.fleets@);
        out
    }

    /// The players who receive a report of the battle: the owners of its
    /// fleets, each once, in the order their first fleet comes.
    pub fn report_players(&self) -> (r: Vec<PlayerID>)
        ensures
            r@ == spec_dedup(spec_owners(self.fleets@)),
            r@.no_duplicates(),
            forall|p: PlayerID| r@.contains(p) <==> spec_owners(self.fleets@).contains(p),
    {
        let mut owners: Vec<PlayerID> = Vec::new();
        let mut i: usize = 0;
        while i < self.fleets.len()
            invariant
                i <= self.fleets@.len(),
                owners@ == spec_owners(self.fleets@.take(i as int)),
            decreases self.fleets@.len() - i,
        {
            let fleets = &self.fleets[i].1;
            let ghost before = owners@;
            let mut j: usize = 0;
            while j < fleets.len()
                invariant
                    j <= fleets@.len(),
                    fleets == &self.fleets@[i as int].1,
                    i < self.fleets@.len(),
                    owners@ == before + fleets@.take(j as int).map_values(|fl: Fleet| fl.player),
                decreases fleets@.len() - j,
            {
                owners.push(fleets[j].player);
                proof {
                    assert(fleets@.take(j + 1).map_values(|fl: Fleet| fl.player) =~= fleets@.take(j as int).map_values(
                        |fl: Fleet| fl.player,
                    ).push(fleets@[j as int].player));
                }
                j = j + 1;
            }
            proof {
                assert(fleets@.take(j as int) =~= fleets@);
                assert(self.fleets@.take(i + 1).drop_last() =~= self.fleets@.take(i as int));
            }
            i = i + 1;
        }
        assert(self.fleets@.take(i as int) =~= self.fleets@);
        let mut players: Vec<PlayerID> = Vec::new();
        let mut k: usize = 0;
        while k < owners.len()
            invariant
                k <= owners@.len(),
                players@ == spec_dedup(owners@.take(k as int)),
            decreases owners@.len() - k,
        {
            let p = owners[k];
            let mut seen = false;
            let mut l: usize = 0;
            while l < players.len()
                invariant
                    l <= players@.len(),
                    seen <==> (exists|m: int| 0 <= m < l && players@[m] == p),
                decreases players@.len() - l,
            {
                if players[l] == p {
                    seen = true;
                }
                l = l + 1;
            }
            proof {
                assert(owners@.take(k + 1).drop_last() =~= owners@.take(k as int));
                assert(owners@.take(k + 1).last() == p);
            }
            if !seen {
                players.push(p);
            }
            k = k + 1;
        }
        assert(owners@.take(k as int) =~= owners@);
        proof {
            lemma_dedup(owners@);
        }
        players
    }

    /// The fleets left in the battle once the destroyed ones are taken out:
    /// each faction keeps, unchanged and in order, those of its fleets that
    /// still hold ships, and a faction left with none leaves the battle.
    pub fn remaining_fleets(groups: Vec<FactionFleets>) -> (r: Vec<FactionFleets>)
        ensures
            spec_groups(r@) == spec_remaining(spec_groups(groups@)),
    {
        let ghost all = groups@;
        let mut groups = groups;
        let mut kept: Vec<FactionFleets> = Vec::new();
        let ghost mut done: int = 0;
        while groups.len() > 0
            invariant
                0 <= done <= all.len(),
                groups@ == all.skip(done),
                spec_groups(kept@) == spec_remaining(spec_groups(all.take(done))),
            decreases groups@.len(),
        {
            let (faction, fleets) = groups.remove(0);
            proof {
                assert(all[done] == (faction, fleets));
                assert(spec_groups(all.take(done + 1)).drop_last() =~= spec_groups(all.take(done)));
                assert(spec_groups(all.take(done + 1)).last() == (faction, fleets@));
            }
            let survivors = surviving_fleets(fleets);
            if survivors.len() > 0 {
                kept.push((faction, survivors));
            }
            proof {
                assert(spec_groups(kept@) =~= spec_remaining(spec_groups(all.take(done + 1))));
                done = done + 1;
                assert(groups@ =~= all.skip(done));
            }
        }
        assert(all.take(done) =~= all);
        kept
    }

    /// The squadron an attacker of faction `faction_id` fires at, with its
    /// faction. The attacker looks at the formations of its attack order one
    /// after the other and stops at the first where some squadron of another
    /// faction still holds ships and belongs to no fleet of `excluded_fleets`
    /// (the fleets that joined the battle this round); among those, the target
    /// is drawn at random. With no such squadron at any formation there is no
    /// target.
    pub fn pick_target_squadron(
        &self,
        faction_id: FactionID,
        attacker: &FleetSquadron,
        excluded_fleets: &Vec<FleetID>,
    ) -> (r: Option<(FactionID, FleetSquadron)>)
        ensures
            match r {
                None => (forall|m: int|
                    0 <= m < 4 ==> !spec_has_target(
                        self.fleets@,
                        faction_id,
                        #[trigger] spec_attack_order(attacker.formation)[m],
                        excluded_fleets@,
                    )) && forall|g: FleetFormation| !#[trigger] spec_has_target(self.fleets@, faction_id, g, excluded_fleets@),
                Some((f, s)) => exists|m: int|
                    0 <= m < 4 && s.formation == spec_attack_order(attacker.formation)[m] && (forall|mm: int|
                        0 <= mm < m ==> !spec_has_target(
                            self.fleets@,
                            faction_id,
                            #[trigger] spec_attack_order(attacker.formation)[mm],
                            excluded_fleets@,
                        )) && f != faction_id && spec_is_target(s, s.formation, excluded_fleets@)
                        && spec_in_battle(self.fleets@, f, s),
            },
    {
        let order = attacker.formation.attack_order();
        let mut m: usize = 0;
        while m < order.len()
            invariant
                order@ == spec_attack_order(attacker.formation),
                m <= 4,
                forall|mm: int|
                    0 <= mm < m ==> !spec_has_target(
                        self.fleets@,
                        faction_id,
                        #[trigger] spec_attack_order(attacker.formation)[mm],
                        excluded_fleets@,
                    ),
            decreases 4 - m,
        {
            let form = order[m];
            let mut candidates: Vec<(FactionID, FleetSquadron)> = Vec::new();
            let mut i: usize = 0;
            while i < self.fleets.len()
                invariant
                    i <= self.fleets@.len(),
                    form == spec_attack_order(attacker.formation)[m as int],
                    forall|c: int|
                        0 <= c < candidates@.len() ==> (#[trigger] candidates@[c]).0 != faction_id && spec_is_target(
                            candidates@[c].1,
                            form,
                            excluded_fleets@,
                        ) && spec_in_battle(self.fleets@, candidates@[c].0, candidates@[c].1),
                    (candidates@.len() > 0) <==> exists|ii: int|
                        0 <= ii < i && self.fleets@[ii].0 != faction_id && spec_target_in_fleets(
                            #[trigger] self.fleets@[ii].1@,
                            form,
                            excluded_fleets@,
                        ),
                decreases self.fleets@.len() - i,
            {
                let f = self.fleets[i].0;
                if f != faction_id {
                    let ghost before = candidates@;
                    collect_targets(f, &self.fleets[i].1, form, excluded_fleets, &mut candidates);
                    proof {
                        assert forall|c: int| 0 <= c < candidates@.len() implies (#[trigger] candidates@[c]).0
                            != faction_id && spec_is_target(candidates@[c].1, form, excluded_fleets@)
                            && spec_in_battle(self.fleets@, candidates@[c].0, candidates@[c].1) by {
                            if c < before.len() {
                                assert(candidates@[c] == before[c]);
                            } else {
                                let (j, k) = choose|j: int, k: int|
                                    0 <= j < self.fleets@[i as int].1@.len() && 0 <= k < self.fleets@[i as int].1@[j].squadrons@.len()
                                        && #[trigger] self.fleets@[i as int].1@[j].squadrons@[k] == candidates@[c].1;
                                assert(self.fleets@[i as int].1@[j].squadrons@[k] == candidates@[c].1);
                            }
                        }
                    }
                }
                i = i + 1;
            }
            if candidates.len() > 0 {
                let idx = random_index(candidates.len());
                let picked = candidates[idx];
                assert(candidates@[idx as int] == picked);
                return Some(picked);
            }
            proof {
                assert(!spec_has_target(self.fleets@, faction_id, form, excluded_fleets@));
            }
            m = m + 1;
        }
        proof {
            assert forall|g: FleetFormation| !#[trigger] spec_has_target(self.fleets@, faction_id, g, excluded_fleets@) by {
                lemma_attack_order_covers(attacker.formation, g);
                let mm = choose|mm: int| 0 <= mm < spec_attack_order(attacker.formation).len() && spec_attack_order(attacker.formation)[mm] == g;
                assert(!spec_has_target(self.fleets@, faction_id, spec_attack_order(attacker.formation)[mm], excluded_fleets@));
            }
        }
        None
    }

    /// Groups fleets by the faction of their owner, as found among `players`:
    /// one group per faction, holding its fleets in their given order.
    pub fn group_by_faction(fleets: Vec<Fleet>, players: &Vec<Player>) -> (groups: Vec<FactionFleets>)
        requires
            forall|i: int| 0 <= i < fleets@.len() ==> spec_owner_faction(players@, #[trigger] fleets@[i].player) is Some,
        ensures
            spec_distinct_factions(groups@),
            forall|a: int|
                0 <= a < groups@.len() ==> (#[trigger] groups@[a]).1@ == spec_fleets_of(players@, fleets@, groups@[a].0),
            forall|i: int|
                0 <= i < fleets@.len() ==> spec_covered(groups@, players@, fleets@[i].player),
    {
        let ghost all = fleets@;
        let mut fleets = fleets;
        let mut groups: Vec<FactionFleets> = Vec::new();
        let ghost mut done: int = 0;
        while fleets.len() > 0
            invariant
                0 <= done <= all.len(),
                fleets@ == all.skip(done),
                forall|i: int| 0 <= i < all.len() ==> spec_owner_faction(players@, #[trigger] all[i].player) is Some,
                spec_distinct_factions(groups@),
                forall|a: int|
                    0 <= a < groups@.len() ==> (#[trigger] groups@[a]).1@ == spec_fleets_of(players@, all.take(done), groups@[a].0),
                forall|f: FactionID|
                    (forall|a: int| 0 <= a < groups@.len() ==> (#[trigger] groups@[a]).0 != f) ==> #[trigger] spec_fleets_of(
                        players@,
                        all.take(done),
                        f,
                    ) == Seq::<Fleet>::empty(),
                forall|i: int|
                    0 <= i < done ==> spec_covered(groups@, players@, all[i].player),
            decreases fleets@.len(),
        {
            let fleet = fleets.remove(0);
            proof {
                assert(all[done] == fleet);
                assert(all.take(done + 1).drop_last() =~= all.take(done));
                assert(all.take(done + 1).last() == fleet);
            }
            let f = faction_of(players, fleet.player);
            let ghost old_groups = groups@;
            let mut g: usize = 0;
            while g < groups.len()
                invariant
                    g <= groups@.len(),
                    forall|a: int| 0 <= a < g ==> groups@[a].0 != f,
                ensures
                    g <= groups@.len(),
                    forall|a: int| 0 <= a < g ==> groups@[a].0 != f,
                    g < groups@.len() ==> groups@[g as int].0 == f,
                decreases groups@.len() - g,
            {
                if groups[g].0 == f {
                    break;
                }
                g = g + 1;
            }
            if g < groups.len() {
                let (key, mut members) = groups.remove(g);
                members.push(fleet);
                groups.insert(g, (key, members));
                proof {
                    assert forall|a: int|
                        0 <= a < groups@.len() implies (#[trigger] groups@[a]).1@ == spec_fleets_of(
                        players@,
                        all.take(done + 1),
                        groups@[a].0,
                    ) by {
                        if a != g {
                            assert(groups@[a] == old_groups[a]);
                        }
                    }
                    assert forall|i: int| 0 <= i < done + 1 implies spec_covered(groups@, players@, all[i].player) by {
                        if i < done {
                            let a = choose|a: int|
                                0 <= a < old_groups.len() && Some((#[trigger] old_groups[a]).0) == spec_owner_faction(
                                    players@,
                                    all[i].player,
                                );
                            assert(groups@[a].0 == old_groups[a].0);
                        } else {
                            assert(groups@[g as int].0 == f);
                        }
                    }
                    assert forall|ff: FactionID|
                        (forall|a: int| 0 <= a < groups@.len() ==> (#[trigger] groups@[a]).0 != ff) implies #[trigger] spec_fleets_of(
                        players@,
                        all.take(done + 1),
                        ff,
                    ) == Seq::<Fleet>::empty() by {
                        assert(spec_fleets_of(players@, all.take(done), ff) == spec_fleets_of(players@, all.take(done + 1).drop_last(), ff));
                        assert forall|a: int| 0 <= a < old_groups.len() implies (#[trigger] old_groups[a]).0 != ff by {
                            assert(groups@[a].0 == old_groups[a].0);
                        }
                        assert(groups@[g as int].0 != ff);
                    }
                }
            } else {
                let mut members: Vec<Fleet> = Vec::new();
                members.push(fleet);
                groups.push((f, members));
                proof {
                    assert(spec_fleets_of(players@, all.take(done), f) == Seq::<Fleet>::empty());
                    assert(members@ =~= spec_fleets_of(players@, all.take(done + 1), f));
                    assert forall|a: int|
                        0 <= a < groups@.len() implies (#[trigger] groups@[a]).1@ == spec_fleets_of(
                        players@,
                        all.take(done + 1),
                        groups@[a].0,
                    ) by {
                        if a < old_groups.len() {
                            assert(groups@[a] == old_groups[a]);
                        }
                    }
                    assert forall|i: int| 0 <= i < done + 1 implies spec_covered(groups@, players@, all[i].player) by {
                        if i < done {
                            let a = choose|a: int|
                                0 <= a < old_groups.len() && Some((#[trigger] old_groups[a]).0) == spec_owner_faction(
                                    players@,
                                    all[i].player,
                                );
                            assert(groups@[a] == old_groups[a]);
                        } else {
                            assert(groups@[old_groups.len() as int].0 == f);
                        }
                    }
                    assert forall|ff: FactionID|
                        (forall|a: int| 0 <= a < groups@.len() ==> (#[trigger] groups@[a]).0 != ff) implies #[trigger] spec_fleets_of(
                        players@,
                        all.take(done + 1),
                        ff,
                    ) == Seq::<Fleet>::empty() by {
                        assert(spec_fleets_of(players@, all.take(done), ff) == spec_fleets_of(players@, all.take(done + 1).drop_last(), ff));
                        assert forall|a: int| 0 <= a < old_groups.len() implies (#[trigger] old_groups[a]).0 != ff by {
                            assert(groups@[a] == old_groups[a]);
                        }
                        assert(groups@[old_groups.len() as int].0 != ff);
                    }
                }
            }
            proof {
                done = done + 1;
                assert(fleets@ =~= all.skip(done));
            }
        }
        assert(all.skip(done).len() == all.len() - done);
        assert(done == all.len());
        assert(all.take(done) =~= all);
        assert forall|i: int| 0 <= i < all.len() implies spec_covered(groups@, players@, all[i].player) by {
            assert(i < done);
        }
        groups
    }

    /// After an attack, the targeted squadron (identified by `target.id`, in
    /// the fleet `target.fleet` of faction `target_faction`) holds
    /// `remaining` ships; the rest of the battle is left as it was.
    pub fn set_squadron_quantity(&mut self, target_faction: FactionID, target: FleetSquadron, remaining: u16)
        requires
            spec_well_formed(old(self).fleets@),
            exists|i: int, j: int|
                0 <= i < old(self).fleets@.len() && old(self).fleets@[i].0 == target_faction && 0 <= j
                    < old(self).fleets@[i].1@.len() && #[trigger] old(self).fleets@[i].1@[j].id == target.fleet,
        ensures
            spec_well_formed(final(self).fleets@),
            final(self).fleets@.len() == old(self).fleets@.len(),
            forall|i: int|
                0 <= i < final(self).fleets@.len() ==> (#[trigger] final(self).fleets@[i]).0 == old(self).fleets@[i].0
                    && final(self).fleets@[i].1@.len() == old(self).fleets@[i].1@.len(),
            forall|i: int, j: int|
                0 <= i < final(self).fleets@.len() && 0 <= j < final(self).fleets@[i].1@.len() ==> {
                    let n = #[trigger] final(self).fleets@[i].1@[j];
                    let o = old(self).fleets@[i].1@[j];
                    spec_same_but_squadrons(n, o) && n.squadrons@ == if old(self).fleets@[i].0 == target_faction && o.id
                        == target.fleet {
                        spec_set_quantity(o.squadrons@, target.id, remaining)
                    } else {
                        o.squadrons@
                    }
                },
            final(self).id == old(self).id,
            final(self).system == old(self).system,
            final(self).attacker == old(self).attacker,
            final(self).defender_faction == old(self).defender_faction,
            final(self).victor == old(self).victor,
            final(self).rounds@ == old(self).rounds@,
            final(self).begun_at == old(self).begun_at,
            final(self).ended_at == old(self).ended_at,
    {
        let ghost groups0 = self.fleets@;
        let mut gi: usize = 0;
        while gi < self.fleets.len()
            invariant
                self.fleets@ == groups0,
                gi <= groups0.len(),
                forall|a: int| 0 <= a < gi ==> groups0[a].0 != target_faction,
            ensures
                gi <= groups0.len(),
                forall|a: int| 0 <= a < gi ==> groups0[a].0 != target_faction,
                gi < groups0.len() ==> groups0[gi as int].0 == target_faction,
            decreases groups0.len() - gi,
        {
            if self.fleets[gi].0 == target_faction {
                break;
            }
            gi = gi + 1;
        }
        let (key, mut fleets) = self.fleets.remove(gi);
        let ghost fleets0 = fleets@;
        let mut fj: usize = 0;
        while fj < fleets.len()
            invariant
                fleets@ == fleets0,
                fj <= fleets0.len(),
                forall|b: int| 0 <= b < fj ==> fleets0[b].id != target.fleet,
            ensures
                fj <= fleets0.len(),
                forall|b: int| 0 <= b < fj ==> fleets0[b].id != target.fleet,
                fj < fleets0.len() ==> fleets0[fj as int].id == target.fleet,
            decreases fleets0.len() - fj,
        {
            if fleets[fj].id == target.fleet {
                break;
            }
            fj = fj + 1;
        }
        proof {
            assert(groups0[gi as int] == (key, fleets));
        }
        let mut fleet = fleets.remove(fj);
        let ghost squadrons0 = fleet.squadrons@;
        let mut k: usize = 0;
        while k < fleet.squadrons.len()
            invariant
                k <= squadrons0.len(),
                fleet.squadrons@.len() == squadrons0.len(),
                forall|m: int|
                    0 <= m < squadrons0.len() ==> #[trigger] fleet.squadrons@[m] == if m < k {
                        spec_set_quantity(squadrons0, target.id, remaining)[m]
                    } else {
                        squadrons0[m]
                    },
                spec_same_but_squadrons(fleet, fleets0[fj as int]),
                fj < fleets0.len(),
                squadrons0 == fleets0[fj as int].squadrons@,
            decreases squadrons0.len() - k,
        {
            let s = fleet.squadrons[k];
            if s.id == target.id {
                fleet.squadrons.set(k, FleetSquadron { quantity: remaining, ..s });
            }
            k = k + 1;
        }
        assert(fleet.squadrons@ =~= spec_set_quantity(squadrons0, target.id, remaining));
        fleets.insert(fj, fleet);
        self.fleets.insert(gi, (key, fleets));
        proof {
            assert forall|i: int, j: int|
                0 <= i < self.fleets@.len() && 0 <= j < self.fleets@[i].1@.len() implies {
                    let n = #[trigger] self.fleets@[i].1@[j];
                    let o = groups0[i].1@[j];
                    spec_same_but_squadrons(n, o) && n.squadrons@ == if groups0[i].0 == target_faction && o.id
                        == target.fleet {
                        spec_set_quantity(o.squadrons@, target.id, remaining)
                    } else {
                        o.squadrons@
                    }
                } by {
                if i == gi {
                    if j == fj {
                    } else {
                        assert(self.fleets@[i].1@[j] == fleets0[j]);
                        assert(fleets0[j].id != target.fleet);
                    }
                } else {
                    assert(self.fleets@[i] == groups0[i]);
                    assert(groups0[i].0 != target_faction);
                }
            }
            assert forall|i: int, a: int, b: int|
                0 <= i < self.fleets@.len() && 0 <= a < b < self.fleets@[i].1@.len() implies #[trigger] self.fleets@[i].1@[a].id
                != #[trigger] self.fleets@[i].1@[b].id by {
                assert(self.fleets@[i].1@[a].id == groups0[i].1@[a].id);
                assert(self.fleets@[i].1@[b].id == groups0[i].1@[b].id);
            }
            assert forall|i: int, j: int, k: int|
                0 <= i < self.fleets@.len() && 0 <= j < self.fleets@[i].1@.len() && 0 <= k < self.fleets@[i].1@[j].squadrons@.len()
                implies (#[trigger] self.fleets@[i].1@[j].squadrons@[k]).fleet == self.fleets@[i].1@[j].id by {
                assert(self.fleets@[i].1@[j].squadrons@[k].fleet == groups0[i].1@[j].squadrons@[k].fleet);
            }
        }
    }

    /// The victor of a finished battle: the first faction that still has a
    /// fleet holding ships. With no such faction there is no victor.
    pub fn process_victor(&self) -> (r: Result<FactionID, InternalError>)
        ensures
            match r {
                Ok(f) => exists|i: int|
                    0 <= i < self.fleets@.len() && self.fleets@[i].0 == f && spec_group_has_ships(
                        self.fleets@[i].1@,
                    ) && forall|k: int| 0 <= k < i ==> !spec_group_has_ships(#[trigger] self.fleets@[k].1@),
                Err(e) => e == InternalError::NotFound(<FactionID as Entity>::ETYPE) && forall|k: int|
                    0 <= k < self.fleets@.len() ==> !spec_group_has_ships(#[trigger] self.fleets@[k].1@),
            },
    {
        let mut i: usize = 0;
        while i < self.fleets.len()
            invariant
                i <= self.fleets@.len(),
                forall|k: int| 0 <= k < i ==> !spec_group_has_ships(#[trigger] self.fleets@[k].1@),
            decreases self.fleets@.len() - i,
        {
            let fleets = &self.fleets[i].1;
            let mut j: usize = 0;
            while j < fleets.len()
                invariant
                    j <= fleets@.len(),
                    fleets == &self.fleets@[i as int].1,
                    i < self.fleets@.len(),
                    forall|l: int| 0 <= l < j ==> !spec_has_ships(#[trigger] fleets@[l].squadrons@),
                    forall|k: int| 0 <= k < i ==> !spec_group_has_ships(#[trigger] self.fleets@[k].1@),
                decreases fleets@.len() - j,
            {
                if fleets[j].can_fight() {
                    proof {
                        assert(spec_has_ships(fleets@[j as int].squadrons@));
                        assert(spec_group_has_ships(self.fleets@[i as int].1@));
                    }
                    return Ok(self.fleets[i].0);
                }
                j = j + 1;
            }
            i = i + 1;
        }
        Err(InternalError::NotFound(<FactionID as Entity>::ETYPE))
    }
}

} // verus!
