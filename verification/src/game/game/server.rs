use vstd::prelude::*;
use crate::game::player::{Player, PlayerID, same_but_wallet};
use crate::game::system::system::SystemID;

verus! {

/// The money a system brings its owner every few seconds: forty with an
/// operational mine, ten otherwise.
pub open spec fn spec_system_income(system: SystemID, mines: Seq<SystemID>) -> int {
    if mines.contains(system) {
        40
    } else {
        10
    }
}

/// A system brings forty when it stands anywhere among the systems with an
/// operational mine, whatever else the list holds and in whatever order, and
/// ten when it stands nowhere in it.
pub proof fn lemma_system_income(system: SystemID, mines: Seq<SystemID>)
    ensures
        forall|k: int| 0 <= k < mines.len() && #[trigger] mines[k] == system ==> spec_system_income(system, mines) == 40,
        (forall|k: int| 0 <= k < mines.len() ==> #[trigger] mines[k] != system) ==> spec_system_income(system, mines) == 10,
{
    assert forall|k: int| 0 <= k < mines.len() && #[trigger] mines[k] == system implies spec_system_income(system, mines) == 40 by {
        assert(mines.contains(system));
    }
}

/// The income of player `pid` from the possessed `systems` (each with its owner).
pub open spec fn spec_income(systems: Seq<(SystemID, PlayerID)>, mines: Seq<SystemID>, pid: PlayerID) -> int
    decreases systems.len(),
{
    if systems.len() == 0 {
        0
    } else {
        spec_income(systems.drop_last(), mines, pid) + if systems.last().1 == pid {
            spec_system_income(systems.last().0, mines)
        } else {
            0
        }
    }
}

proof fn lemma_income_bound(systems: Seq<(SystemID, PlayerID)>, mines: Seq<SystemID>, pid: PlayerID)
    ensures
        0 <= spec_income(systems, mines, pid) <= 40 * systems.len(),
    decreases systems.len(),
{
    if systems.len() > 0 {
        lemma_income_bound(systems.drop_last(), mines, pid);
    }
}

proof fn lemma_income_absent(systems: Seq<(SystemID, PlayerID)>, mines: Seq<SystemID>, pid: PlayerID)
    requires
        forall|i: int| 0 <= i < systems.len() ==> (#[trigger] systems[i]).1 != pid,
    ensures
        spec_income(systems, mines, pid) == 0,
    decreases systems.len(),
{
    if systems.len() > 0 {
        lemma_income_absent(systems.drop_last(), mines, pid);
    }
}

/// The income of one system.
pub fn system_income(system: SystemID, mines: &Vec<SystemID>) -> (income: usize)
    ensures
        income == spec_system_income(system, mines@),
        forall|k: int| 0 <= k < mines@.len() && #[trigger] mines@[k] == system ==> income == 40,
        (forall|k: int| 0 <= k < mines@.len() ==> #[trigger] mines@[k] != system) ==> income == 10,
{
    proof {
        lemma_system_income(system, mines@);
    }
    let mut i: usize = 0;
    while i < mines.len()
        invariant
            i <= mines@.len(),
            forall|k: int| 0 <= k < i ==> mines@[k] != system,
        decreases mines@.len() - i,
    {
        if mines[i] == system {
            assert(mines@[i as int] == system);
            return 40;
        }
        i = i + 1;
    }
    10
}

/// Whether `incomes` holds an entry for player `pid`.
pub open spec fn spec_lists(incomes: Seq<(PlayerID, usize)>, pid: PlayerID) -> bool {
    exists|a: int| 0 <= a < incomes.len() && incomes[a].0 == pid
}

/// Whether player `pid` owns one of the first `n` systems of `systems`.
pub open spec fn spec_owns_among(systems: Seq<(SystemID, PlayerID)>, n: int, pid: PlayerID) -> bool {
    exists|k: int| 0 <= k < n && k < systems.len() && systems[k].1 == pid
}

/// Player `p` owns a system of `systems` before player `q` owns any.
pub open spec fn spec_owns_earlier(systems: Seq<(SystemID, PlayerID)>, p: PlayerID, q: PlayerID) -> bool {
    exists|k: int| 0 <= k < systems.len() && systems[k].1 == p && forall|m: int| 0 <= m <= k ==> systems[m].1 != q
}

proof fn lemma_same_ids(s1: Seq<(PlayerID, usize)>, s2: Seq<(PlayerID, usize)>)
    requires
        s1.len() == s2.len(),
        forall|a: int| 0 <= a < s1.len() ==> (#[trigger] s1[a]).0 == s2[a].0,
    ensures
        forall|pid: PlayerID| spec_lists(s1, pid) == #[trigger] spec_lists(s2, pid),
{
    assert forall|pid: PlayerID| spec_lists(s1, pid) == #[trigger] spec_lists(s2, pid) by {
        if spec_lists(s1, pid) {
            let a = choose|a: int| 0 <= a < s1.len() && s1[a].0 == pid;
            assert(s2[a].0 == pid);
        }
        if spec_lists(s2, pid) {
            let a = choose|a: int| 0 <= a < s2.len() && s2[a].0 == pid;
            assert(s1[a].0 == pid);
        }
    }
}

/// The income of each owner of `systems` (each possessed system with its
/// owner), given the systems holding an operational mine: one entry per
/// owner, in the order its first system comes.
pub fn compute_incomes(systems: &Vec<(SystemID, PlayerID)>, mines: &Vec<SystemID>) -> (incomes: Vec<(PlayerID, usize)>)
    requires
        40 * systems@.len() <= usize::MAX,
    ensures
        forall|a: int, b: int| 0 <= a < b < incomes@.len() ==> #[trigger] incomes@[a].0 != #[trigger] incomes@[b].0,
        forall|a: int|
            0 <= a < incomes@.len() ==> (#[trigger] incomes@[a]).1 == spec_income(systems@, mines@, incomes@[a].0),
        forall|k: int| 0 <= k < systems@.len() ==> spec_lists(incomes@, (#[trigger] systems@[k]).1),
        forall|a: int|
            0 <= a < incomes@.len() ==> spec_owns_among(systems@, systems@.len() as int, (#[trigger] incomes@[a]).0),
        forall|a: int, b: int|
            0 <= a < b < incomes@.len() ==> spec_owns_earlier(systems@, #[trigger] incomes@[a].0, #[trigger] incomes@[b].0),
{
    let mut incomes: Vec<(PlayerID, usize)> = Vec::new();
    let mut i: usize = 0;
    while i < systems.len()
        invariant
            i <= systems@.len(),
            40 * systems@.len() <= usize::MAX,
            forall|a: int, b: int| 0 <= a < b < incomes@.len() ==> #[trigger] incomes@[a].0 != #[trigger] incomes@[b].0,
            forall|a: int|
                0 <= a < incomes@.len() ==> (#[trigger] incomes@[a]).1 == spec_income(
                    systems@.take(i as int),
                    mines@,
                    incomes@[a].0,
                ),
            forall|k: int| 0 <= k < i ==> spec_lists(incomes@, (#[trigger] systems@[k]).1),
            forall|a: int| 0 <= a < incomes@.len() ==> spec_owns_among(systems@, i as int, (#[trigger] incomes@[a]).0),
            forall|a: int, b: int|
                0 <= a < b < incomes@.len() ==> spec_owns_earlier(systems@, #[trigger] incomes@[a].0, #[trigger] incomes@[b].0),
        decreases systems@.len() - i,
    {
        let (sid, owner) = systems[i];
        let income = system_income(sid, mines);
        proof {
            assert(systems@.take(i + 1).drop_last() =~= systems@.take(i as int));
            assert(systems@.take(i + 1).last() == (sid, owner));
        }
        let ghost old_incomes = incomes@;
        let mut a: usize = 0;
        while a < incomes.len()
            invariant
                a <= incomes@.len(),
                incomes@ == old_incomes,
                forall|b: int| 0 <= b < a ==> incomes@[b].0 != owner,
            ensures
                a <= incomes@.len(),
                forall|b: int| 0 <= b < a ==> incomes@[b].0 != owner,
                a < incomes@.len() ==> incomes@[a as int].0 == owner,
            decreases incomes@.len() - a,
        {
            if incomes[a].0 == owner {
                break;
            }
            a = a + 1;
        }
        if a < incomes.len() {
            let (pid, total) = incomes[a];
            proof {
                lemma_income_bound(systems@.take(i as int), mines@, pid);
                assert(systems@.take(i as int).len() == i);
            }
            incomes.set(a, (pid, total + income));
            proof {
                lemma_same_ids(old_incomes, incomes@);
                assert forall|b: int|
                    0 <= b < incomes@.len() implies (#[trigger] incomes@[b]).1 == spec_income(
                    systems@.take(i + 1),
                    mines@,
                    incomes@[b].0,
                ) by {
                    if b != a {
                        assert(incomes@[b] == old_incomes[b]);
                    }
                }
                assert(spec_lists(incomes@, owner)) by {
                    assert(incomes@[a as int].0 == owner);
                }
                assert forall|x: int, y: int| 0 <= x < y < incomes@.len() implies spec_owns_earlier(
                    systems@,
                    #[trigger] incomes@[x].0,
                    #[trigger] incomes@[y].0,
                ) by {
                    assert(incomes@[x].0 == old_incomes[x].0);
                    assert(incomes@[y].0 == old_incomes[y].0);
                }
                assert forall|c: int| 0 <= c < incomes@.len() implies spec_owns_among(
                    systems@,
                    i + 1,
                    (#[trigger] incomes@[c]).0,
                ) by {
                    assert(incomes@[c].0 == old_incomes[c].0);
                    assert(spec_owns_among(systems@, i as int, old_incomes[c].0));
                    let k = choose|k: int| 0 <= k < i && k < systems@.len() && systems@[k].1 == old_incomes[c].0;
                    assert(systems@[k].1 == incomes@[c].0);
                }
            }
        } else {
            incomes.push((owner, income));
            proof {
                assert forall|k: int| 0 <= k < i implies (#[trigger] systems@.take(i as int)[k]).1 != owner by {
                    assert(spec_lists(old_incomes, systems@[k].1));
                    let c = choose|c: int| 0 <= c < old_incomes.len() && old_incomes[c].0 == systems@[k].1;
                }
                lemma_income_absent(systems@.take(i as int), mines@, owner);
                assert forall|b: int|
                    0 <= b < incomes@.len() implies (#[trigger] incomes@[b]).1 == spec_income(
                    systems@.take(i + 1),
                    mines@,
                    incomes@[b].0,
                ) by {
                    if b < old_incomes.len() {
                        assert(incomes@[b] == old_incomes[b]);
                    }
                }
                assert forall|k: int| 0 <= k < i + 1 implies spec_lists(incomes@, (#[trigger] systems@[k]).1) by {
                    if k < i {
                        assert(spec_lists(old_incomes, systems@[k].1));
                        let c = choose|c: int| 0 <= c < old_incomes.len() && old_incomes[c].0 == systems@[k].1;
                        assert(incomes@[c] == old_incomes[c]);
                    } else {
                        assert(incomes@[old_incomes.len() as int].0 == systems@[k].1);
                    }
                }
                assert forall|x: int, y: int| 0 <= x < y < incomes@.len() implies spec_owns_earlier(
                    systems@,
                    #[trigger] incomes@[x].0,
                    #[trigger] incomes@[y].0,
                ) by {
                    assert(incomes@[x] == old_incomes[x]);
                    if y < old_incomes.len() {
                        assert(incomes@[y] == old_incomes[y]);
                    } else {
                        assert(incomes@[y].0 == owner);
                        assert(spec_owns_among(systems@, i as int, old_incomes[x].0));
                        let k = choose|k: int| 0 <= k < i && k < systems@.len() && systems@[k].1 == old_incomes[x].0;
                        assert forall|m: int| 0 <= m <= k implies systems@[m].1 != owner by {
                            assert(systems@.take(i as int)[m] == systems@[m]);
                        }
                    }
                }
                assert forall|c: int| 0 <= c < incomes@.len() implies spec_owns_among(
                    systems@,
                    i + 1,
                    (#[trigger] incomes@[c]).0,
                ) by {
                    if c < old_incomes.len() {
                        assert(incomes@[c] == old_incomes[c]);
                        assert(spec_owns_among(systems@, i as int, old_incomes[c].0));
                        let k = choose|k: int| 0 <= k < i && k < systems@.len() && systems@[k].1 == old_incomes[c].0;
                        assert(systems@[k].1 == incomes@[c].0);
                    } else {
                        assert(systems@[i as int].1 == incomes@[c].0);
                    }
                }
            }
        }
        i = i + 1;
    }
    assert(systems@.take(i as int) =~= systems@);
    incomes
}

/// Pays each player its income: the wallet of every player of `players`
/// named in `incomes` grows by that player's income (the first entry naming
/// it); the other players are left as they were.
pub fn pay_incomes(players: &mut Vec<Player>, incomes: &Vec<(PlayerID, usize)>)
    requires
        forall|a: int, b: int| 0 <= a < b < incomes@.len() ==> #[trigger] incomes@[a].0 != #[trigger] incomes@[b].0,
        forall|p: int, a: int|
            0 <= p < old(players)@.len() && 0 <= a < incomes@.len() && (#[trigger] old(players)@[p]).id == (#[trigger] incomes@[a]).0
                ==> old(players)@[p].wallet + incomes@[a].1 <= usize::MAX,
    ensures
        final(players)@.len() == old(players)@.len(),
        forall|p: int| 0 <= p < final(players)@.len() ==> same_but_wallet(#[trigger] final(players)@[p], old(players)@[p]),
        forall|p: int, a: int|
            0 <= p < final(players)@.len() && 0 <= a < incomes@.len() && (#[trigger] old(players)@[p]).id == (#[trigger] incomes@[a]).0
                ==> final(players)@[p].wallet == old(players)@[p].wallet + incomes@[a].1,
        forall|p: int|
            0 <= p < final(players)@.len() && (forall|a: int| 0 <= a < incomes@.len() ==> (#[trigger] incomes@[a]).0 != old(players)@[p].id)
                ==> (#[trigger] final(players)@[p]).wallet == old(players)@[p].wallet,
{
    let ghost start = players@;
    let mut p: usize = 0;
    while p < players.len()
        invariant
            p <= players@.len(),
            players@.len() == start.len(),
            forall|a: int, b: int| 0 <= a < b < incomes@.len() ==> #[trigger] incomes@[a].0 != #[trigger] incomes@[b].0,
            forall|q: int, a: int|
                0 <= q < start.len() && 0 <= a < incomes@.len() && (#[trigger] start[q]).id == (#[trigger] incomes@[a]).0
                    ==> start[q].wallet + incomes@[a].1 <= usize::MAX,
            forall|q: int| p <= q < players@.len() ==> #[trigger] players@[q] == start[q],
            forall|q: int| 0 <= q < players@.len() ==> same_but_wallet(#[trigger] players@[q], start[q]),
            forall|q: int, a: int|
                0 <= q < p && 0 <= a < incomes@.len() && (#[trigger] start[q]).id == (#[trigger] incomes@[a]).0
                    ==> players@[q].wallet == start[q].wallet + incomes@[a].1,
            forall|q: int|
                0 <= q < p && (forall|a: int| 0 <= a < incomes@.len() ==> (#[trigger] incomes@[a]).0 != start[q].id)
                    ==> (#[trigger] players@[q]).wallet == start[q].wallet,
        decreases players@.len() - p,
    {
        let pid = players[p].id;
        let mut a: usize = 0;
        while a < incomes.len()
            invariant
                a <= incomes@.len(),
                forall|b: int| 0 <= b < a ==> incomes@[b].0 != pid,
            ensures
                a <= incomes@.len(),
                forall|b: int| 0 <= b < a ==> incomes@[b].0 != pid,
                a < incomes@.len() ==> incomes@[a as int].0 == pid,
            decreases incomes@.len() - a,
        {
            if incomes[a].0 == pid {
                break;
            }
            a = a + 1;
        }
        if a < incomes.len() {
            let income = incomes[a].1;
            let mut player = players.remove(p);
            proof {
                assert(start[p as int].id == incomes@[a as int].0);
            }
            player.wallet = player.wallet + income;
            players.insert(p, player);
        }
        proof {
            assert forall|q: int, b: int|
                0 <= q < p + 1 && 0 <= b < incomes@.len() && (#[trigger] start[q]).id == (#[trigger] incomes@[b]).0
                    implies players@[q].wallet == start[q].wallet + incomes@[b].1 by {
                if q == p {
                    if b != a {
                        assert(incomes@[b].0 != incomes@[a as int].0);
                    }
                }
            }
        }
        p = p + 1;
    }
}

/// Pays every player the income of the systems it owns (see
/// `spec_income`): after a payday, each wallet has grown by exactly that
/// income, and nothing else about the players has changed. Gives back the
/// income of each owner, in the order its first system comes.
pub fn produce_income(players: &mut Vec<Player>, systems: &Vec<(SystemID, PlayerID)>, mines: &Vec<SystemID>) -> (incomes: Vec<
    (PlayerID, usize),
>)
    requires
        40 * systems@.len() <= usize::MAX,
        forall|p: int|
            0 <= p < old(players)@.len() ==> (#[trigger] old(players)@[p]).wallet + spec_income(systems@, mines@, old(players)@[p].id)
                <= usize::MAX,
    ensures
        final(players)@.len() == old(players)@.len(),
        forall|p: int|
            0 <= p < final(players)@.len() ==> same_but_wallet(#[trigger] final(players)@[p], old(players)@[p])
                && final(players)@[p].wallet == old(players)@[p].wallet + spec_income(systems@, mines@, old(players)@[p].id),
        forall|a: int|
            0 <= a < incomes@.len() ==> (#[trigger] incomes@[a]).1 == spec_income(systems@, mines@, incomes@[a].0),
        forall|k: int| 0 <= k < systems@.len() ==> spec_lists(incomes@, (#[trigger] systems@[k]).1),
        forall|a: int|
            0 <= a < incomes@.len() ==> spec_owns_among(systems@, systems@.len() as int, (#[trigger] incomes@[a]).0),
        forall|a: int, b: int|
            0 <= a < b < incomes@.len() ==> spec_owns_earlier(systems@, #[trigger] incomes@[a].0, #[trigger] incomes@[b].0),
{
    let incomes = compute_incomes(systems, mines);
    let ghost start = players@;
    proof {
        assert forall|p: int, a: int|
            0 <= p < start.len() && 0 <= a < incomes@.len() && (#[trigger] start[p]).id == (#[trigger] incomes@[a]).0
                implies start[p].wallet + incomes@[a].1 <= usize::MAX by {
            assert(incomes@[a].1 == spec_income(systems@, mines@, start[p].id));
        }
    }
    pay_incomes(players, &incomes);
    proof {
        assert forall|p: int| 0 <= p < players@.len() implies same_but_wallet(#[trigger] players@[p], start[p])
            && players@[p].wallet == start[p].wallet + spec_income(systems@, mines@, start[p].id) by {
            let pid = start[p].id;
            if spec_lists(incomes@, pid) {
                let a = choose|a: int| 0 <= a < incomes@.len() && incomes@[a].0 == pid;
                assert(start[p].id == incomes@[a].0);
            } else {
                assert forall|a: int| 0 <= a < incomes@.len() implies (#[trigger] incomes@[a]).0 != start[p].id by {
                    if incomes@[a].0 == pid {
                        assert(spec_lists(incomes@, pid));
                    }
                }
                assert forall|k: int| 0 <= k < systems@.len() implies (#[trigger] systems@[k]).1 != pid by {
                    assert(spec_lists(incomes@, systems@[k].1));
                }
                lemma_income_absent(systems@, mines@, pid);
            }
        }
    }
    incomes
}

} // verus!
