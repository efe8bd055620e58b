use vstd::prelude::*;
use std::collections::HashMap;
use crate::game::player::{Player, PlayerID};
use crate::game::ship::model::ShipModelCategory;
use crate::util::sort::{sort_by_keys, spec_is_sorted_by, lemma_sorted_keys_monotone};

verus! {

/// Ships per category.
pub type ShipCount = HashMap<ShipModelCategory, i32>;

/// The rankings shown at the end of a game.
#[derive(Debug)]
pub struct GameRankings {
    pub wealth: Vec<(PlayerID, usize)>,
    pub destroyed_ships: Vec<(PlayerID, i32, ShipCount)>,
    pub lost_ships: Vec<(PlayerID, i32, ShipCount)>,
    pub successful_conquests: Vec<(PlayerID, i32)>,
    pub lost_systems: Vec<(PlayerID, i32)>,
}

/// What a player achieved during a game.
#[derive(Debug)]
pub struct PlayerRanking {
    pub player: PlayerID,
    pub destroyed_ships: ShipCount,
    pub destroyed_ships_score: i32,
    pub lost_ships: ShipCount,
    pub lost_ships_score: i32,
    pub successful_conquests: i32,
    pub lost_systems: i32,
}

impl PlayerRanking {
    /// The ranking of a player who has achieved nothing yet.
    pub fn new(player_id: PlayerID) -> (r: Self)
        ensures
            r.player == player_id,
            r.destroyed_ships@ == Map::<ShipModelCategory, i32>::empty(),
            r.destroyed_ships_score == 0,
            r.lost_ships@ == Map::<ShipModelCategory, i32>::empty(),
            r.lost_ships_score == 0,
            r.successful_conquests == 0,
            r.lost_systems == 0,
    {
        Self {
            player: player_id,
            destroyed_ships: HashMap::new(),
            destroyed_ships_score: 0,
            lost_ships: HashMap::new(),
            lost_ships_score: 0,
            successful_conquests: 0,
            lost_systems: 0,
        }
    }
}

/// The wealth entries of some players, in their order.
pub open spec fn spec_wealth(players: Seq<Player>) -> Seq<(PlayerID, usize)> {
    players.map_values(|p: Player| (p.id, p.wallet))
}

pub open spec fn spec_wealth_keys(players: Seq<Player>) -> Seq<i128> {
    players.map_values(|p: Player| p.wallet as i128)
}

pub open spec fn spec_destroyed_keys(r: Seq<PlayerRanking>) -> Seq<i128> {
    r.map_values(|x: PlayerRanking| x.destroyed_ships_score as i128)
}

pub open spec fn spec_lost_keys(r: Seq<PlayerRanking>) -> Seq<i128> {
    r.map_values(|x: PlayerRanking| x.lost_ships_score as i128)
}

pub open spec fn spec_conquest_keys(r: Seq<PlayerRanking>) -> Seq<i128> {
    r.map_values(|x: PlayerRanking| x.successful_conquests as i128)
}

pub open spec fn spec_lost_system_keys(r: Seq<PlayerRanking>) -> Seq<i128> {
    r.map_values(|x: PlayerRanking| x.lost_systems as i128)
}

/// The successful conquests entries of some rankings, in their order.
pub open spec fn spec_conquests(r: Seq<PlayerRanking>) -> Seq<(PlayerID, i32)> {
    r.map_values(|x: PlayerRanking| (x.player, x.successful_conquests))
}

/// The lost systems entries of some rankings, in their order.
pub open spec fn spec_lost_systems(r: Seq<PlayerRanking>) -> Seq<(PlayerID, i32)> {
    r.map_values(|x: PlayerRanking| (x.player, x.lost_systems))
}

/// The destroyed ships entries of some rankings, in their order.
pub open spec fn spec_destroyed(r: Seq<PlayerRanking>) -> Seq<(PlayerID, i32, ShipCount)> {
    r.map_values(|x: PlayerRanking| (x.player, x.destroyed_ships_score, x.destroyed_ships))
}

/// The lost ships entries of some rankings, in their order.
pub open spec fn spec_lost(r: Seq<PlayerRanking>) -> Seq<(PlayerID, i32, ShipCount)> {
    r.map_values(|x: PlayerRanking| (x.player, x.lost_ships_score, x.lost_ships))
}

/// Builds the rankings of a game: the players by wealth, richest first; by
/// destroyed ships' score, highest first; by lost ships' score, lowest first;
/// by successful conquests, most first; by lost systems, fewest first. Each
/// list is sorted stably by its score, and the lists ranked from the highest
/// are the stable ascending order reversed, so that there players with equal
/// scores come in the reverse of their given order.
pub fn generate_game_rankings(players: Vec<Player>, player_rankings: Vec<PlayerRanking>) -> (g: GameRankings)
    ensures
        spec_is_sorted_by(g.wealth@, spec_wealth(players@), spec_wealth_keys(players@), true),
        spec_is_sorted_by(g.destroyed_ships@, spec_destroyed(player_rankings@), spec_destroyed_keys(player_rankings@), true),
        spec_is_sorted_by(g.lost_ships@, spec_lost(player_rankings@), spec_lost_keys(player_rankings@), false),
        spec_is_sorted_by(
            g.successful_conquests@,
            spec_conquests(player_rankings@),
            spec_conquest_keys(player_rankings@),
            true,
        ),
        spec_is_sorted_by(g.lost_systems@, spec_lost_systems(player_rankings@), spec_lost_system_keys(player_rankings@), false),
        forall|i: int, j: int| 0 <= i < j < g.wealth@.len() ==> #[trigger] g.wealth@[i].1 >= #[trigger] g.wealth@[j].1,
        forall|i: int, j: int|
            0 <= i < j < g.destroyed_ships@.len() ==> #[trigger] g.destroyed_ships@[i].1 >= #[trigger] g.destroyed_ships@[j].1,
        forall|i: int, j: int| 0 <= i < j < g.lost_ships@.len() ==> #[trigger] g.lost_ships@[i].1 <= #[trigger] g.lost_ships@[j].1,
        forall|i: int, j: int|
            0 <= i < j < g.successful_conquests@.len() ==> #[trigger] g.successful_conquests@[i].1
                >= #[trigger] g.successful_conquests@[j].1,
        forall|i: int, j: int|
            0 <= i < j < g.lost_systems@.len() ==> #[trigger] g.lost_systems@[i].1 <= #[trigger] g.lost_systems@[j].1,
{
    let ghost all_players = players@;
    let ghost all_rankings = player_rankings@;
    let mut wealth: Vec<(PlayerID, usize)> = Vec::new();
    let mut wealth_keys: Vec<i128> = Vec::new();
    let mut i: usize = 0;
    while i < players.len()
        invariant
            players@ == all_players,
            i <= players@.len(),
            wealth@ == spec_wealth(players@.take(i as int)),
            wealth_keys@ == spec_wealth_keys(players@.take(i as int)),
        decreases players@.len() - i,
    {
        wealth.push((players[i].id, players[i].wallet));
        wealth_keys.push(players[i].wallet as i128);
        proof {
            assert(spec_wealth(players@.take(i + 1)) =~= spec_wealth(players@.take(i as int)).push(
                (players@[i as int].id, players@[i as int].wallet),
            ));
            assert(spec_wealth_keys(players@.take(i + 1)) =~= spec_wealth_keys(players@.take(i as int)).push(
                players@[i as int].wallet as i128,
            ));
        }
        i = i + 1;
    }
    assert(players@.take(i as int) =~= players@);
    let mut destroyed: Vec<(PlayerID, i32, ShipCount)> = Vec::new();
    let mut lost: Vec<(PlayerID, i32, ShipCount)> = Vec::new();
    let mut conquests: Vec<(PlayerID, i32)> = Vec::new();
    let mut systems: Vec<(PlayerID, i32)> = Vec::new();
    let mut destroyed_keys: Vec<i128> = Vec::new();
    let mut lost_keys: Vec<i128> = Vec::new();
    let mut conquests_keys: Vec<i128> = Vec::new();
    let mut systems_keys: Vec<i128> = Vec::new();
    let mut rankings = player_rankings;
    let ghost mut done: int = 0;
    while rankings.len() > 0
        invariant
            0 <= done <= all_rankings.len(),
            rankings@ == all_rankings.skip(done),
            destroyed@ == spec_destroyed(all_rankings.take(done)),
            lost@ == spec_lost(all_rankings.take(done)),
            conquests@ == spec_conquests(all_rankings.take(done)),
            systems@ == spec_lost_systems(all_rankings.take(done)),
            destroyed_keys@ == spec_destroyed_keys(all_rankings.take(done)),
            lost_keys@ == spec_lost_keys(all_rankings.take(done)),
            conquests_keys@ == spec_conquest_keys(all_rankings.take(done)),
            systems_keys@ == spec_lost_system_keys(all_rankings.take(done)),
        decreases rankings@.len(),
    {
        let ranking = rankings.remove(0);
        proof {
            assert(all_rankings[done] == ranking);
        }
        let player = ranking.player;
        destroyed.push((player, ranking.destroyed_ships_score, ranking.destroyed_ships));
        lost.push((player, ranking.lost_ships_score, ranking.lost_ships));
        conquests.push((player, ranking.successful_conquests));
        systems.push((player, ranking.lost_systems));
        destroyed_keys.push(ranking.destroyed_ships_score as i128);
        lost_keys.push(ranking.lost_ships_score as i128);
        conquests_keys.push(ranking.successful_conquests as i128);
        systems_keys.push(ranking.lost_systems as i128);
        proof {
            assert(all_rankings.take(done + 1) =~= all_rankings.take(done).push(ranking));
            assert(destroyed@ =~= spec_destroyed(all_rankings.take(done + 1)));
            assert(lost@ =~= spec_lost(all_rankings.take(done + 1)));
            assert(conquests@ =~= spec_conquests(all_rankings.take(done + 1)));
            assert(systems@ =~= spec_lost_systems(all_rankings.take(done + 1)));
            assert(destroyed_keys@ =~= spec_destroyed_keys(all_rankings.take(done + 1)));
            assert(lost_keys@ =~= spec_lost_keys(all_rankings.take(done + 1)));
            assert(conquests_keys@ =~= spec_conquest_keys(all_rankings.take(done + 1)));
            assert(systems_keys@ =~= spec_lost_system_keys(all_rankings.take(done + 1)));
            done = done + 1;
            assert(rankings@ =~= all_rankings.skip(done));
        }
    }
    assert(all_rankings.skip(done).len() == all_rankings.len() - done);
    assert(all_rankings.take(done) =~= all_rankings);
    let g = GameRankings {
        wealth: sort_by_keys(wealth, &wealth_keys, true),
        destroyed_ships: sort_by_keys(destroyed, &destroyed_keys, true),
        lost_ships: sort_by_keys(lost, &lost_keys, false),
        successful_conquests: sort_by_keys(conquests, &conquests_keys, true),
        lost_systems: sort_by_keys(systems, &systems_keys, false),
    };
    proof {
        let r = all_rankings;
        lemma_sorted_keys_monotone(g.wealth@, spec_wealth(all_players), spec_wealth_keys(all_players), |e: (PlayerID, usize)| e.1 as i128, true);
        lemma_sorted_keys_monotone(g.destroyed_ships@, spec_destroyed(r), spec_destroyed_keys(r), |e: (PlayerID, i32, ShipCount)| e.1 as i128, true);
        lemma_sorted_keys_monotone(g.lost_ships@, spec_lost(r), spec_lost_keys(r), |e: (PlayerID, i32, ShipCount)| e.1 as i128, false);
        lemma_sorted_keys_monotone(g.successful_conquests@, spec_conquests(r), spec_conquest_keys(r), |e: (PlayerID, i32)| e.1 as i128, true);
        lemma_sorted_keys_monotone(g.lost_systems@, spec_lost_systems(r), spec_lost_system_keys(r), |e: (PlayerID, i32)| e.1 as i128, false);
    }
    g
}

} // verus!
