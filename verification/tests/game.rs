use std::collections::HashMap;

use kalaxia::game::chat::{ChatMessage, ChatMessageID, ChatMessageRequest};
use kalaxia::game::faction::{FactionColor, FactionID, GameFaction};
use kalaxia::game::game::game::{victory_points_goal, Game, GameID, GAME_START_WALLET};
use kalaxia::game::game::option::{GameOptionMapSize, GameOptionSpeed};
use kalaxia::game::game::server::{compute_incomes, pay_incomes, produce_income, system_income};
use kalaxia::game::game::victory::{award_victory_points, supremacy_victor};
use kalaxia::game::lobby::{check_enter_lobby, Lobby, LobbyDeparture, LobbyID, LobbyOptionsPatch};
use kalaxia::game::player::{init_player_wallets, Player, PlayerID, PlayerUpdateData};
use kalaxia::game::ranking::{generate_game_rankings, PlayerRanking};
use kalaxia::game::system::building::{get_building_data, Building, BuildingKind, BuildingStatus};
use kalaxia::game::system::system::{SystemDominion, SystemID, SystemKind};
use kalaxia::game::system::zone::{assign_faction_cells, cell_coordinates, mark_zone, pick_free_cell, GRID_CELLS};
use kalaxia::util::error::InternalError;
use kalaxia::util::time::Time;

fn fresh() -> u128 {
    uuid::Uuid::new_v4().as_u128()
}

fn player_mock(wallet: usize) -> Player {
    Player {
        id: PlayerID(fresh()),
        wallet,
        username: String::from(""),
        game: None,
        lobby: None,
        faction: None,
        ready: true,
        is_connected: true,
    }
}

#[test]
fn test_get_construction_time_coeff() {
    assert_eq!(1.2, GameOptionSpeed::Slow.into_coeff_percent() as f64 / 100.0);
    assert_eq!(1.0, GameOptionSpeed::Medium.into_coeff_percent() as f64 / 100.0);
    assert_eq!(0.8, GameOptionSpeed::Fast.into_coeff_percent() as f64 / 100.0);
}

#[test]
fn test_get_travel_speed() {
    assert_eq!(0.4, GameOptionSpeed::Slow.into_travel_speed_percent() as f64 / 100.0);
    assert_eq!(0.55, GameOptionSpeed::Medium.into_travel_speed_percent() as f64 / 100.0);
    assert_eq!(0.7, GameOptionSpeed::Fast.into_travel_speed_percent() as f64 / 100.0);
}

fn player_ranking_mock(
    destroyed_ships_score: i32,
    lost_ships_score: i32,
    successful_conquests: i32,
    lost_systems: i32,
) -> PlayerRanking {
    PlayerRanking {
        player: PlayerID(fresh()),
        destroyed_ships: HashMap::new(),
        destroyed_ships_score,
        lost_ships: HashMap::new(),
        lost_ships_score,
        successful_conquests,
        lost_systems,
    }
}

#[test]
fn test_generate_game_rankings() {
    let players = vec![
        player_mock(1000),
        player_mock(350),
        player_mock(2200),
        player_mock(1220),
        player_mock(1800),
        player_mock(0),
    ];
    let player_rankings = vec![
        player_ranking_mock(20, 10, 4, 4),
        player_ranking_mock(15, 0, 5, 2),
        player_ranking_mock(30, 40, 5, 5),
        player_ranking_mock(50, 48, 8, 9),
        player_ranking_mock(0, 2, 6, 1),
        player_ranking_mock(18, 15, 4, 0),
    ];

    let game_rankings = generate_game_rankings(players, player_rankings);

    assert_eq!(
        vec![2200, 1800, 1220, 1000, 350, 0],
        game_rankings.wealth.iter().map(|w| w.1).collect::<Vec<usize>>()
    );

    assert_eq!(
        vec![50, 30, 20, 18, 15, 0],
        game_rankings.destroyed_ships.iter().map(|ds| ds.1).collect::<Vec<i32>>()
    );

    assert_eq!(
        vec![0, 2, 10, 15, 40, 48],
        game_rankings.lost_ships.iter().map(|ls| ls.1).collect::<Vec<i32>>()
    );

    assert_eq!(
        vec![8, 6, 5, 5, 4, 4],
        game_rankings.successful_conquests.iter().map(|sc| sc.1).collect::<Vec<i32>>()
    );

    assert_eq!(
        vec![0, 1, 2, 4, 5, 9],
        game_rankings.lost_systems.iter().map(|ls| ls.1).collect::<Vec<i32>>()
    );
}

#[test]
fn rankings_with_ties_keep_reverse_order_when_descending() {
    let a = player_ranking_mock(0, 0, 5, 3);
    let b = player_ranking_mock(0, 0, 5, 3);
    let (ida, idb) = (a.player, b.player);
    let rankings = generate_game_rankings(vec![], vec![a, b]);
    // the conquests list ranks the highest first: equal scores come reversed
    assert_eq!(vec![idb, ida], rankings.successful_conquests.iter().map(|c| c.0).collect::<Vec<PlayerID>>());
    // the lost systems list ranks the lowest first: equal scores keep their order
    assert_eq!(vec![ida, idb], rankings.lost_systems.iter().map(|c| c.0).collect::<Vec<PlayerID>>());
}

#[test]
fn new_player_ranking_is_empty() {
    let pid = PlayerID(fresh());
    let r = PlayerRanking::new(pid);
    assert_eq!(pid, r.player);
    assert!(r.destroyed_ships.is_empty());
    assert_eq!(0, r.destroyed_ships_score);
    assert_eq!(0, r.successful_conquests);
}

#[test]
fn incomes_count_mines() {
    let (s1, s2, s3) = (SystemID(1), SystemID(2), SystemID(3));
    let (p1, p2) = (PlayerID(10), PlayerID(20));
    let mines = vec![s2];
    assert_eq!(10, system_income(s1, &mines));
    assert_eq!(40, system_income(s2, &mines));
    let incomes = compute_incomes(&vec![(s1, p1), (s2, p2), (s3, p1)], &mines);
    assert_eq!(vec![(p1, 20), (p2, 40)], incomes);
}

#[test]
fn produce_income_pays_each_owner() {
    let mut players = vec![player_mock(0), player_mock(100), player_mock(3)];
    let (p1, p2) = (players[0].id, players[1].id);
    let (s1, s2, s3) = (SystemID(1), SystemID(2), SystemID(3));
    let incomes = produce_income(&mut players, &vec![(s1, p1), (s2, p2), (s3, p1)], &vec![s2]);
    assert_eq!(vec![(p1, 20), (p2, 40)], incomes);
    assert_eq!(vec![20, 140, 3], players.iter().map(|p| p.wallet).collect::<Vec<usize>>());
}

#[test]
fn pay_incomes_fills_wallets() {
    let mut players = vec![player_mock(5), player_mock(7), player_mock(9)];
    let incomes = vec![(players[2].id, 40), (players[0].id, 10)];
    pay_incomes(&mut players, &incomes);
    assert_eq!(vec![15, 7, 49], players.iter().map(|p| p.wallet).collect::<Vec<usize>>());
}

#[test]
fn victory_points_are_awarded_per_held_system() {
    let game = GameID(fresh());
    let mut factions = vec![
        GameFaction { faction: FactionID(1), game, victory_points: 0 },
        GameFaction { faction: FactionID(2), game, victory_points: 85 },
    ];
    let holders = vec![FactionID(1), FactionID(2), FactionID(1)];
    let victor = award_victory_points(&mut factions, &holders, victory_points_goal(1));
    assert_eq!(None, victor);
    assert_eq!(20, factions[0].victory_points);
    assert_eq!(95, factions[1].victory_points);
    let victor = award_victory_points(&mut factions, &holders, victory_points_goal(1));
    assert_eq!(Some(1), victor);
    assert_eq!(105, factions[1].victory_points);
}

#[test]
fn victory_goal_is_a_hundred_per_system() {
    assert_eq!(700, victory_points_goal(7));
    assert_eq!(0, victory_points_goal(0));
}

#[test]
fn supremacy_needs_a_single_faction_with_systems() {
    let d = |f: u8, n: u32| SystemDominion { faction_id: FactionID(f), nb_systems: n };
    assert_eq!(Some(FactionID(2)), supremacy_victor(&vec![d(1, 0), d(2, 4), d(3, 0)]));
    assert_eq!(None, supremacy_victor(&vec![d(1, 1), d(2, 4)]));
    assert_eq!(None, supremacy_victor(&vec![d(1, 0)]));
}

#[test]
fn lobby_options_belong_to_the_owner() {
    let owner = PlayerID(fresh());
    let mut lobby = Lobby::new(LobbyID(fresh()), owner);
    assert_eq!(GameOptionSpeed::Medium, lobby.game_speed);
    let patch = LobbyOptionsPatch { map_size: Some(GameOptionMapSize::Large), game_speed: None };
    assert!(matches!(lobby.update_options(PlayerID(fresh()), patch), Err(InternalError::AccessDenied)));
    assert_eq!(GameOptionMapSize::Medium, lobby.map_size);
    assert!(lobby.update_options(owner, patch).is_ok());
    assert_eq!(GameOptionMapSize::Large, lobby.map_size);
    assert_eq!(GameOptionSpeed::Medium, lobby.game_speed);
    assert!(lobby.check_launch(owner).is_ok());
    assert!(matches!(lobby.check_launch(PlayerID(fresh())), Err(InternalError::AccessDenied)));
    let game = Game::from_lobby(GameID(3), &lobby);
    assert_eq!(GameOptionMapSize::Large, game.map_size);
    assert_eq!(0, game.victory_points);
}

#[test]
fn lobby_membership() {
    let owner = PlayerID(fresh());
    let lobby = Lobby::new(LobbyID(fresh()), owner);
    let mut player = player_mock(0);
    assert!(check_enter_lobby(&player).is_ok());
    assert!(matches!(lobby.check_leave(&player), Err(InternalError::NotInLobby)));
    player.lobby = Some(lobby.id);
    assert!(matches!(check_enter_lobby(&player), Err(InternalError::AlreadyInLobby)));
    assert!(lobby.check_leave(&player).is_ok());
    assert_eq!(LobbyDeparture::Clear, lobby.departure(owner, true));
    assert_eq!(LobbyDeparture::NewOwner, lobby.departure(owner, false));
    assert_eq!(LobbyDeparture::Keep, lobby.departure(player.id, false));
}

#[test]
fn lobby_passes_to_the_first_remaining_player() {
    let mut lobby = Lobby::new(LobbyID(fresh()), PlayerID(fresh()));
    let players = vec![player_mock(0), player_mock(0)];
    lobby.update_owner(&players);
    assert_eq!(players[0].id, lobby.owner);
}

#[test]
fn spending_never_exceeds_the_wallet() {
    let mut player = player_mock(100);
    assert!(player.spend(60).is_ok());
    assert_eq!(40, player.wallet);
    assert!(matches!(player.spend(41), Err(InternalError::NotEnoughMoney)));
    assert_eq!(40, player.wallet);
}

#[test]
fn money_transfers_stay_within_a_faction() {
    let mut a = player_mock(100);
    let mut b = player_mock(5);
    a.faction = Some(FactionID(1));
    b.faction = Some(FactionID(1));
    assert!(a.transfer_money(&mut b, 30).is_ok());
    assert_eq!((70, 35), (a.wallet, b.wallet));
    assert!(matches!(a.transfer_money(&mut b, 71), Err(InternalError::Conflict)));
    b.faction = Some(FactionID(2));
    assert!(matches!(a.transfer_money(&mut b, 1), Err(InternalError::Conflict)));
    assert_eq!((70, 35), (a.wallet, b.wallet));
}

#[test]
fn profile_updates_and_resets() {
    let mut player = player_mock(0);
    player.username = String::from("ada");
    let data = PlayerUpdateData { username: String::from("grace"), faction_id: Some(FactionID(2)), is_ready: false };
    assert!(matches!(player.update_profile(data.clone(), true), Err(InternalError::PlayerUsernameAlreadyTaken)));
    assert_eq!("ada", player.username);
    assert!(player.update_profile(data, false).is_ok());
    assert_eq!("grace", player.username);
    assert_eq!(Some(FactionID(2)), player.faction);
    // keeping one's own name is never refused
    let same = PlayerUpdateData { username: String::from("grace"), faction_id: None, is_ready: true };
    assert!(player.update_profile(same, true).is_ok());
    player.lobby = Some(LobbyID(4));
    player.reset();
    assert_eq!("", player.username);
    assert_eq!(None, player.lobby);
    assert_eq!(None, player.faction);
    assert!(!player.ready);
}

#[test]
fn leaving_a_game_needs_to_be_in_it() {
    let mut player = player_mock(0);
    let game = GameID(fresh());
    assert!(matches!(player.check_in_game(game), Err(InternalError::NotInLobby)));
    player.game = Some(game);
    assert!(player.check_in_game(game).is_ok());
}

#[test]
fn wallets_start_full() {
    let mut players = vec![player_mock(3), player_mock(4000)];
    init_player_wallets(&mut players);
    assert!(players.iter().all(|p| p.wallet == GAME_START_WALLET));
}

#[test]
fn building_construction() {
    let owner = player_mock(600);
    let mut player = owner.clone();
    let data = Building::plan_construction(&mut player, Some(owner.id), 0, BuildingKind::Shipyard).unwrap();
    assert_eq!(500, data.cost);
    assert_eq!(100, player.wallet);
    assert!(matches!(
        Building::plan_construction(&mut player, Some(owner.id), 1, BuildingKind::Mine),
        Err(InternalError::Conflict)
    ));
    assert!(matches!(
        Building::plan_construction(&mut player, None, 0, BuildingKind::Mine),
        Err(InternalError::AccessDenied)
    ));
    assert!(matches!(
        Building::plan_construction(&mut player, Some(owner.id), 0, BuildingKind::Mine),
        Err(InternalError::NotEnoughMoney)
    ));
    let system = SystemID(fresh());
    let building = Building::new(system, BuildingKind::Mine, &get_building_data(BuildingKind::Mine));
    assert_eq!(BuildingStatus::Constructing, building.status);
    assert_eq!(building.created_at.0 + 10_000, building.built_at.0);
}

#[test]
fn system_kind_codes_round_trip() {
    assert_eq!(SystemKind::VictorySystem, SystemKind::from_code(SystemKind::VictorySystem.to_code()));
    assert_eq!(SystemKind::BaseSystem, SystemKind::from_code(SystemKind::BaseSystem.to_code()));
    assert_eq!(SystemKind::BaseSystem, SystemKind::from_code(7));
}

#[test]
fn faction_colors_from_stored_integers() {
    assert_eq!(FactionColor(0x12, 0x34, 0x56, 0x78), FactionColor::from(0x12345678));
    assert_eq!(FactionColor(0xff, 0, 0, 0xff), FactionColor::from_bits(0xff0000ffu32 as i32));
    assert_eq!(3, i32::from(FactionID(3)));
}

#[test]
fn chat_messages_go_to_the_faction() {
    let mut player = player_mock(0);
    let request = ChatMessageRequest { content: String::from("hello") };
    assert!(matches!(
        ChatMessage::compose(ChatMessageID(1), &player, request.clone(), Time(0)),
        Err(InternalError::FactionUnknown)
    ));
    player.faction = Some(FactionID(2));
    let message = ChatMessage::compose(ChatMessageID(1), &player, request, Time(5)).unwrap();
    assert_eq!(FactionID(2), message.faction);
    assert_eq!(player.id, message.author);
    assert_eq!("hello", message.content);
}

fn near(a: usize, b: usize) -> bool {
    let (ax, ay) = cell_coordinates(a);
    let (bx, by) = cell_coordinates(b);
    ax <= bx + 1 && bx <= ax + 1 && ay <= by + 1 && by <= ay + 1
}

#[test]
fn faction_zones_keep_apart() {
    let factions = vec![FactionID(1), FactionID(2), FactionID(1), FactionID(3), FactionID(2)];
    let cells = assign_faction_cells(&factions).unwrap();
    assert_eq!(5, cells.len());
    assert_eq!(cells[0], cells[2]);
    assert_eq!(cells[1], cells[4]);
    assert!(!near(cells[0], cells[1]));
    assert!(!near(cells[0], cells[3]));
    assert!(!near(cells[1], cells[3]));
    assert!(cells.iter().all(|&c| c < GRID_CELLS));
}

#[test]
fn marking_a_zone_takes_its_neighbours() {
    let mut taken = vec![false; GRID_CELLS];
    mark_zone(&mut taken, 0);
    assert_eq!(4, taken.iter().filter(|&&t| t).count());
    assert!(taken[0] && taken[1] && taken[16] && taken[17]);
    mark_zone(&mut taken, 5 * 16 + 5);
    assert_eq!(13, taken.iter().filter(|&&t| t).count());
    let free = pick_free_cell(&taken).unwrap();
    assert!(!taken[free]);
    let full = vec![true; GRID_CELLS];
    assert_eq!(None, pick_free_cell(&full));
    assert_eq!((3, 2), cell_coordinates(50));
}
