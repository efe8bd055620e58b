use kalaxia::game::faction::FactionID;
use kalaxia::game::fleet::battle::{Battle, BattleID};
use kalaxia::game::fleet::combat::{is_fight_over, pick_target_fleet, pick_target_ship_group, remaining_after_fire};
use kalaxia::game::fleet::conquest::{conquest_duration_ms, is_cancelled_by_departure, total_strength};
use kalaxia::game::fleet::fleet::{get_fleet_player_ids, Fleet, FleetID};
use kalaxia::game::fleet::formation::FleetFormation;
use kalaxia::game::fleet::round::{resolve_fire, Round, SquadronActionKind};
use kalaxia::game::fleet::squadron::{
    get_available_ship_quantity, get_needed_quantity, split_assignment, FleetSquadron, FleetSquadronID,
};
use kalaxia::game::fleet::travel::{resolve_arrival, ArrivalKind};
use kalaxia::game::player::{Player, PlayerID};
use kalaxia::game::ship::model::ShipModelCategory;
use kalaxia::game::ship::squadron::{Squadron, SquadronID};
use kalaxia::game::system::system::SystemID;
use kalaxia::util::error::InternalError;
use kalaxia::util::time::Time;
use kalaxia::ws::protocol::Action;

fn fresh() -> u128 {
    uuid::Uuid::new_v4().as_u128()
}

fn squadron_mock(category: ShipModelCategory, formation: FleetFormation, quantity: u16) -> FleetSquadron {
    FleetSquadron {
        id: FleetSquadronID(fresh()),
        fleet: FleetID(fresh()),
        formation,
        category,
        quantity,
    }
}

fn fleet_mock() -> Fleet {
    Fleet {
        id: FleetID(fresh()),
        player: PlayerID(fresh()),
        system: SystemID(fresh()),
        destination_system: None,
        destination_arrival_date: None,
        squadrons: vec![FleetSquadron {
            id: FleetSquadronID(fresh()),
            fleet: FleetID(fresh()),
            formation: FleetFormation::Center,
            category: ShipModelCategory::Fighter,
            quantity: 1,
        }],
        is_destroyed: false,
    }
}

fn battle_fleet_mock() -> Fleet {
    let id = FleetID(fresh());
    let mut squadrons = vec![
        squadron_mock(ShipModelCategory::Fighter, FleetFormation::Left, 10),
        squadron_mock(ShipModelCategory::Fighter, FleetFormation::Rear, 20),
        squadron_mock(ShipModelCategory::Fighter, FleetFormation::Center, 10),
    ];
    for s in squadrons.iter_mut() {
        s.fleet = id;
    }
    Fleet {
        id,
        player: PlayerID(fresh()),
        system: SystemID(fresh()),
        destination_system: None,
        destination_arrival_date: None,
        squadrons,
        is_destroyed: false,
    }
}

fn battle_mock() -> Battle {
    Battle {
        id: BattleID(fresh()),
        system: SystemID(fresh()),
        attacker: FleetID(fresh()),
        defender_faction: None,
        fleets: vec![
            (FactionID(1), vec![battle_fleet_mock(), battle_fleet_mock()]),
            (FactionID(2), vec![battle_fleet_mock(), battle_fleet_mock(), battle_fleet_mock()]),
        ],
        rounds: vec![],
        victor: None,
        begun_at: Time::now(),
        ended_at: None,
    }
}

#[test]
fn test_can_fight() {
    let mut fleet = fleet_mock();

    assert!(fleet.can_fight());

    fleet.squadrons[0].quantity = 0;

    assert!(!fleet.can_fight());

    fleet.squadrons = vec![];

    assert!(!fleet.can_fight());
}

#[test]
fn test_is_travelling() {
    let mut fleet = fleet_mock();

    assert!(!fleet.is_travelling());

    fleet.destination_system = Some(SystemID(fresh()));

    assert!(fleet.is_travelling());
}

#[test]
fn test_change_system() {
    let mut fleet = fleet_mock();
    let system = SystemID(fresh());

    assert_ne!(fleet.system, system);

    fleet.change_system(system);

    assert_eq!(fleet.system, system);
    assert_eq!(fleet.destination_system, None);
    assert_eq!(fleet.destination_arrival_date, None);
}

#[test]
fn test_get_attack_formation() {
    let forms = [FleetFormation::Center, FleetFormation::Left, FleetFormation::Right, FleetFormation::Rear];

    for &form in &forms {
        // a formation needs to have something to attack
        assert!(form.attack_order().len() > 0);

        // no attack heals its target
        for &form2 in &forms {
            assert!(form.attack_coeff_percent(form2) > 0);
        }
    }
}

#[test]
fn test_get_available_quantity() {
    let squadron = Some(Squadron {
        id: SquadronID(fresh()),
        system: SystemID(fresh()),
        category: ShipModelCategory::Corvette,
        quantity: 5,
    });
    let fleet_squadron = Some(FleetSquadron {
        id: FleetSquadronID(fresh()),
        fleet: FleetID(fresh()),
        formation: FleetFormation::Center,
        category: ShipModelCategory::Corvette,
        quantity: 5,
    });
    let none = None;
    let none_fs = None;

    assert_eq!(10, get_available_ship_quantity(&squadron, &fleet_squadron));
    assert_eq!(5, get_available_ship_quantity(&none, &fleet_squadron));
    assert_eq!(5, get_available_ship_quantity(&squadron, &none_fs));
    assert_eq!(0, get_available_ship_quantity(&none, &none_fs));
}

#[test]
fn test_get_needed_quantity() {
    let data = vec![
        (10, (10, 0, 0)),
        (0, (10, 0, 10)),
        (0, (10, 10, 0)),
        (3, (20, 10, 7)),
        (7, (10, 3, 0)),
        (5, (15, 0, 10)),
    ];

    for (expected, args) in data {
        assert_eq!(expected, get_needed_quantity(args.0, args.1, args.2));
    }
}

#[test]
fn test_is_fight_over() {
    let mut attacker = fleet_mock();
    let defenders = vec![fleet_mock()];

    assert!(!is_fight_over(&attacker, &defenders));

    attacker.squadrons[0].quantity = 0;

    assert!(is_fight_over(&attacker, &defenders));
}

#[test]
fn test_pick_target_fleet() {
    let fighting_fleet = fleet_mock();
    let fighting_fleet_id = fighting_fleet.id;

    let mut empty_fleet = fleet_mock();
    empty_fleet.squadrons = vec![];

    let mut other_empty_fleet = fleet_mock();
    other_empty_fleet.squadrons = vec![];

    let mut defenders = vec![empty_fleet, fighting_fleet, other_empty_fleet];

    assert!(Some(fighting_fleet_id) == pick_target_fleet(&defenders));

    defenders.remove(1);

    assert!(pick_target_fleet(&defenders).is_none());
}

#[test]
fn test_pick_target_ship_group() {
    let mut fleet = fleet_mock();
    fleet.squadrons = vec![
        squadron_mock(ShipModelCategory::Fighter, FleetFormation::Center, 0),
        squadron_mock(ShipModelCategory::Corvette, FleetFormation::Center, 1),
        squadron_mock(ShipModelCategory::Cruiser, FleetFormation::Center, 0),
    ];

    assert_eq!(pick_target_ship_group(&fleet), 1);
}

#[test]
fn test_pick_target_squadron() {
    let battle = battle_mock();
    let data = vec![
        (1, 2, FleetFormation::Right),
        (1, 2, FleetFormation::Left),
        (2, 1, FleetFormation::Right),
        (2, 1, FleetFormation::Left),
    ];
    let excluded_fleets = vec![FleetID(fresh())];

    for (fid, tfid, formation) in data {
        let squadron = squadron_mock(ShipModelCategory::Corvette, formation, 5);
        let target = battle.pick_target_squadron(FactionID(fid), &squadron, &excluded_fleets);

        assert_eq!(true, target.is_some());

        let (target_faction, target_squadron) = target.unwrap();

        assert_eq!(FactionID(tfid), target_faction);
        assert_eq!(true, target_squadron.quantity > 0);
    }
}

#[test]
fn pick_target_squadron_follows_attack_order() {
    let battle = battle_mock();
    // a squadron on the left aims first at the left flank of the enemy
    let squadron = squadron_mock(ShipModelCategory::Corvette, FleetFormation::Left, 5);
    let (_, target) = battle.pick_target_squadron(FactionID(1), &squadron, &vec![]).unwrap();
    assert_eq!(FleetFormation::Left, target.formation);

    // a squadron at the rear aims at the left flank, then the right one, then the center
    let rear = squadron_mock(ShipModelCategory::Corvette, FleetFormation::Rear, 5);
    let (_, target) = battle.pick_target_squadron(FactionID(2), &rear, &vec![]).unwrap();
    assert_eq!(FleetFormation::Left, target.formation);
}

#[test]
fn pick_target_squadron_skips_excluded_fleets() {
    let battle = battle_mock();
    let mut excluded: Vec<FleetID> = Vec::new();
    for (_, fleets) in battle.fleets.iter() {
        for fleet in fleets {
            for s in fleet.squadrons.iter() {
                excluded.push(s.fleet);
            }
        }
    }
    let squadron = squadron_mock(ShipModelCategory::Corvette, FleetFormation::Center, 5);
    assert!(battle.pick_target_squadron(FactionID(1), &squadron, &excluded).is_none());
}

#[test]
fn battle_is_over_with_fewer_than_two_factions() {
    let mut battle = battle_mock();
    assert!(!battle.is_over());
    battle.fleets.pop();
    assert!(battle.is_over());
}

#[test]
fn process_victor_names_the_first_faction_with_ships() {
    let mut battle = battle_mock();
    for fleet in battle.fleets[0].1.iter_mut() {
        for s in fleet.squadrons.iter_mut() {
            s.quantity = 0;
        }
    }
    assert_eq!(FactionID(2), battle.process_victor().unwrap());

    for fleet in battle.fleets[1].1.iter_mut() {
        for s in fleet.squadrons.iter_mut() {
            s.quantity = 0;
        }
    }
    assert!(matches!(battle.process_victor(), Err(InternalError::NotFound("faction"))));
}

#[test]
fn remaining_fleets_drops_destroyed_fleets_and_factions() {
    let mut battle = battle_mock();
    for s in battle.fleets[1].1[0].squadrons.iter_mut() {
        s.quantity = 0;
    }
    for fleet in battle.fleets[0].1.iter_mut() {
        for s in fleet.squadrons.iter_mut() {
            s.quantity = 0;
        }
    }
    let remaining = Battle::remaining_fleets(battle.fleets);
    assert_eq!(1, remaining.len());
    assert_eq!(FactionID(2), remaining[0].0);
    assert_eq!(2, remaining[0].1.len());
}

#[test]
fn join_fleets_extends_or_adds_groups() {
    let mut battle = battle_mock();
    let newcomer = battle_fleet_mock();
    let newcomer_id = newcomer.id;
    let stranger = battle_fleet_mock();
    battle.join_fleets(vec![(FactionID(2), vec![newcomer]), (FactionID(3), vec![stranger])]);
    assert_eq!(3, battle.fleets.len());
    assert_eq!(FactionID(2), battle.fleets[1].0);
    assert_eq!(4, battle.fleets[1].1.len());
    assert_eq!(newcomer_id, battle.fleets[1].1[3].id);
    assert_eq!(FactionID(3), battle.fleets[2].0);
    assert_eq!(1, battle.fleets[2].1.len());
}

#[test]
fn group_by_faction_gathers_fleets_of_one_faction() {
    let p1 = player_mock(Some(FactionID(1)));
    let p2 = player_mock(Some(FactionID(2)));
    let p3 = player_mock(Some(FactionID(1)));
    let mut f1 = fleet_mock();
    f1.player = p1.id;
    let mut f2 = fleet_mock();
    f2.player = p2.id;
    let mut f3 = fleet_mock();
    f3.player = p3.id;
    let ids = (f1.id, f2.id, f3.id);
    let players = vec![p1, p2, p3];
    let groups = Battle::group_by_faction(vec![f1, f2, f3], &players);
    assert_eq!(2, groups.len());
    assert_eq!(FactionID(1), groups[0].0);
    assert_eq!(vec![ids.0, ids.2], groups[0].1.iter().map(|f| f.id).collect::<Vec<FleetID>>());
    assert_eq!(FactionID(2), groups[1].0);
    assert_eq!(vec![ids.1], groups[1].1.iter().map(|f| f.id).collect::<Vec<FleetID>>());
}

#[test]
fn report_players_names_each_owner_once() {
    let mut battle = battle_mock();
    let owner = battle.fleets[0].1[0].player;
    battle.fleets[1].1[0].player = owner;
    let players = battle.report_players();
    assert_eq!(4, players.len());
    assert_eq!(owner, players[0]);
}

#[test]
fn fighting_squadrons_and_fleet_ids_cover_the_battle() {
    let battle = battle_mock();
    assert_eq!(5, battle.get_fleet_ids().len());
    let fighting = battle.get_fighting_squadrons();
    assert_eq!(15, fighting.len());
    assert_eq!(FactionID(1), fighting[0].0);
    assert_eq!(FactionID(2), fighting[14].0);
}

#[test]
fn resolve_fire_splits_the_squadron() {
    // 250 damage against ships of 100 hit points destroys two of them
    assert_eq!((18, 2), resolve_fire(20, 250, 100));
    // a volley weaker than one ship destroys nothing
    assert_eq!((20, 0), resolve_fire(20, 99, 100));
    // a squadron never loses more ships than it holds
    assert_eq!((0, 20), resolve_fire(20, 5000, 100));
}

#[test]
fn remaining_after_fire_counts_started_hit_points() {
    assert_eq!(97, remaining_after_fire(100, 250, 100));
    assert_eq!(0, remaining_after_fire(2, 1000, 10));
    assert_eq!(100, remaining_after_fire(100, 0, 10));
}

#[test]
fn round_fight_records_arrivals_and_attacks() {
    let mut battle = battle_mock();
    let mut round = Round::new(battle.id, 1);
    assert_eq!(3, round.preparation_seconds());
    let squadron = battle.fleets[0].1[0].squadrons[0];
    let order = vec![(FactionID(1), squadron)];
    let newcomer = battle_fleet_mock();
    round.fight(&mut battle, &vec![newcomer], &order, &|_a: &FleetSquadron, _t: &FleetSquadron| 1000u16);
    assert_eq!(1, round.fleet_actions.len());
    assert_eq!(1, round.squadron_actions.len());
    assert_eq!(squadron.id, round.squadron_actions[0].squadron);
    assert_eq!(1, Round::new(battle.id, 2).preparation_seconds());
}

fn lone_squadron_fleet(quantity: u16) -> Fleet {
    let mut fleet = fleet_mock();
    fleet.squadrons[0].fleet = fleet.id;
    fleet.squadrons[0].quantity = quantity;
    fleet
}

#[test]
fn round_turns_follow_the_order_on_the_current_battle() {
    let first = lone_squadron_fleet(10);
    let second = lone_squadron_fleet(4);
    let (a, b) = (first.squadrons[0], second.squadrons[0]);
    let mut battle = battle_mock();
    battle.fleets = vec![(FactionID(1), vec![first]), (FactionID(2), vec![second])];
    let mut round = Round::new(battle.id, 1);
    // each volley destroys as many ships as the shooter holds
    let order = vec![(FactionID(1), a), (FactionID(2), b)];
    round.fight(&mut battle, &vec![], &order, &|s: &FleetSquadron, _t: &FleetSquadron| s.quantity * 10);
    // the first squadron wipes out the second one's fleet, which still
    // fires, with the ships it held when the round began
    assert_eq!(0, battle.fleets[1].1[0].squadrons[0].quantity);
    assert_eq!(6, battle.fleets[0].1[0].squadrons[0].quantity);
    assert_eq!(2, round.squadron_actions.len());
    assert_eq!(a.id, round.squadron_actions[0].squadron);
    assert!(matches!(round.squadron_actions[0].kind, SquadronActionKind::Attack { target, loss: 4 } if target == b.id));
    assert_eq!(b.id, round.squadron_actions[1].squadron);
    assert!(matches!(round.squadron_actions[1].kind, SquadronActionKind::Attack { target, loss: 4 } if target == a.id));
}

#[test]
fn newcomers_neither_attack_nor_are_attacked() {
    let first = lone_squadron_fleet(10);
    let second = lone_squadron_fleet(4);
    let (a, newcomer) = (first.squadrons[0], second.clone());
    let mut battle = battle_mock();
    battle.fleets = vec![(FactionID(1), vec![first]), (FactionID(2), vec![second])];
    let mut round = Round::new(battle.id, 2);
    let order = vec![(FactionID(1), a)];
    round.fight(&mut battle, &vec![newcomer], &order, &|s: &FleetSquadron, _t: &FleetSquadron| s.quantity * 10);
    assert_eq!(0, round.squadron_actions.len());
    assert_eq!(4, battle.fleets[1].1[0].squadrons[0].quantity);
    assert_eq!(1, round.fleet_actions.len());
}

#[test]
fn refused_donations_leave_the_fleet_as_it_was() {
    let donor = player_mock(Some(FactionID(1)));
    let enemy = player_mock(Some(FactionID(2)));
    let mut fleet = fleet_mock();
    fleet.player = donor.id;
    fleet.destination_system = Some(SystemID(fresh()));
    fleet.destination_arrival_date = Some(Time::now());
    let before = fleet.clone();
    let system = fleet.system;
    assert!(matches!(fleet.donate(&donor, system, &Some(enemy)), Err(InternalError::Conflict)));
    assert!(matches!(fleet.donate(&donor, SystemID(fresh()), &None), Err(InternalError::Conflict)));
    assert_eq!(before.player, fleet.player);
    assert_eq!(before.destination_system, fleet.destination_system);
    assert_eq!(before.destination_arrival_date, fleet.destination_arrival_date);
    assert_eq!(before.is_destroyed, fleet.is_destroyed);
}

#[test]
fn ships_move_only_between_what_the_player_owns() {
    let fleet = fleet_mock();
    let owner = fleet.player;
    assert!(fleet.check_assignment(owner, Some(owner)).is_ok());
    assert!(matches!(fleet.check_assignment(owner, None), Err(InternalError::AccessDenied)));
    assert!(matches!(fleet.check_assignment(owner, Some(PlayerID(fresh()))), Err(InternalError::AccessDenied)));
    let stranger = PlayerID(fresh());
    assert!(matches!(fleet.check_assignment(stranger, Some(stranger)), Err(InternalError::AccessDenied)));
}

#[test]
fn split_assignment_takes_from_orbit_first() {
    assert_eq!((10, 5), split_assignment(10, 15));
    assert_eq!((15, 0), split_assignment(20, 15));
}

#[test]
fn check_travel_gives_the_first_failing_condition() {
    let fleet = fleet_mock();
    let owner = fleet.player;
    assert!(matches!(fleet.check_travel(PlayerID(fresh()), 0), Err(InternalError::AccessDenied)));
    assert!(fleet.check_travel(owner, 1).is_ok());
    assert!(matches!(fleet.check_travel(owner, 2), Err(InternalError::Conflict)));
    let mut travelling = fleet_mock();
    travelling.destination_system = Some(SystemID(fresh()));
    let owner = travelling.player;
    assert!(matches!(travelling.check_travel(owner, 0), Err(InternalError::FleetAlreadyTravelling)));
    let mut empty = fleet_mock();
    empty.squadrons[0].quantity = 0;
    let owner = empty.player;
    assert!(matches!(empty.check_travel(owner, 0), Err(InternalError::FleetEmpty)));
}

#[test]
fn donate_passes_the_fleet_to_the_system_owner() {
    let donor = player_mock(Some(FactionID(1)));
    let receiver = player_mock(Some(FactionID(1)));
    let enemy = player_mock(Some(FactionID(2)));
    let mut fleet = fleet_mock();
    fleet.player = donor.id;
    let system = fleet.system;
    assert!(matches!(fleet.donate(&donor, system, &Some(enemy)), Err(InternalError::Conflict)));
    assert_eq!(donor.id, fleet.player);
    assert!(matches!(fleet.donate(&donor, system, &None), Err(InternalError::Conflict)));
    let receiver_id = receiver.id;
    assert!(fleet.donate(&donor, system, &Some(receiver)).is_ok());
    assert_eq!(receiver_id, fleet.player);
}

#[test]
fn strength_sums_model_strengths() {
    let mut fleet = fleet_mock();
    fleet.squadrons = vec![
        squadron_mock(ShipModelCategory::Fighter, FleetFormation::Left, 3),
        squadron_mock(ShipModelCategory::Cruiser, FleetFormation::Center, 2),
    ];
    // 3 fighters of strength 1 and 2 cruisers of strength 75
    assert_eq!(153, fleet.get_strength());
    let fleets = vec![fleet, fleet_mock()];
    assert_eq!(154, total_strength(&fleets));
}

#[test]
fn clear_losses_removes_empty_squadrons() {
    let mut fleet = fleet_mock();
    fleet.squadrons = vec![
        squadron_mock(ShipModelCategory::Fighter, FleetFormation::Left, 0),
        squadron_mock(ShipModelCategory::Cruiser, FleetFormation::Center, 2),
    ];
    assert!(!fleet.clear_losses());
    assert_eq!(1, fleet.squadrons.len());
    fleet.squadrons[0].quantity = 0;
    assert!(fleet.clear_losses());
    assert!(fleet.squadrons.is_empty());
}

#[test]
fn fleet_creation_is_reserved_to_the_system_owner() {
    let owner = PlayerID(fresh());
    let system = SystemID(fresh());
    let fleet = Fleet::create(FleetID(1), owner, system, Some(owner)).unwrap();
    assert_eq!(owner, fleet.player);
    assert_eq!(system, fleet.system);
    assert!(fleet.squadrons.is_empty());
    assert!(matches!(Fleet::create(FleetID(2), owner, system, None), Err(InternalError::AccessDenied)));
    assert!(matches!(
        Fleet::create(FleetID(3), owner, system, Some(PlayerID(fresh()))),
        Err(InternalError::AccessDenied)
    ));
}

#[test]
fn fleet_player_ids_follow_the_fleets() {
    let fleets = vec![fleet_mock(), fleet_mock()];
    let ids = get_fleet_player_ids(&fleets);
    assert_eq!(vec![fleets[0].player, fleets[1].player], ids);
}

#[test]
fn arrival_outcomes() {
    let mine = Some(FactionID(1));
    let theirs = Some(FactionID(2));
    assert_eq!(ArrivalKind::Colonize, resolve_arrival(mine, None, 0, 3));
    assert_eq!(ArrivalKind::JoinedBattle, resolve_arrival(mine, Some(theirs), 1, 3));
    assert_eq!(ArrivalKind::JoinedBattle, resolve_arrival(mine, Some(mine), 2, 0));
    assert_eq!(ArrivalKind::Arrived, resolve_arrival(mine, Some(mine), 0, 3));
    assert_eq!(ArrivalKind::Conquer, resolve_arrival(mine, Some(theirs), 0, 0));
    assert_eq!(
        ArrivalKind::Battle { defender_faction: FactionID(2) },
        resolve_arrival(mine, Some(theirs), 0, 2)
    );
    assert_eq!(Some(Action::FleetArrived), ArrivalKind::Arrived.announcement());
    assert_eq!(Some(Action::FleetJoinedBattle), ArrivalKind::JoinedBattle.announcement());
    assert_eq!(None, ArrivalKind::Conquer.announcement());
}

#[test]
fn conquest_duration_shrinks_with_strength() {
    assert_eq!(60000, conquest_duration_ms(0));
    assert_eq!(45000, conquest_duration_ms(150));
    assert_eq!(5000, conquest_duration_ms(550));
    assert_eq!(5000, conquest_duration_ms(10000));
}

#[test]
fn conquest_ends_when_the_last_fleet_leaves() {
    let a = FleetID(1);
    let b = FleetID(2);
    assert!(is_cancelled_by_departure(&vec![a], a));
    assert!(is_cancelled_by_departure(&vec![], a));
    assert!(!is_cancelled_by_departure(&vec![a, b], a));
}

fn player_mock(faction: Option<FactionID>) -> Player {
    Player {
        id: PlayerID(fresh()),
        username: String::from(""),
        game: None,
        lobby: None,
        faction,
        ready: true,
        wallet: 0,
        is_connected: true,
    }
}

fn fire_mock(shooter: &FleetSquadron, target: &FleetSquadron) -> u16 {
    // every ship of the shooter destroys one ship of the target
    if shooter.quantity >= target.quantity {
        0
    } else {
        target.quantity - shooter.quantity
    }
}

#[test]
fn attack_fleet_hits_one_squadron() {
    let attacker = battle_fleet_mock();
    let mut defender = battle_fleet_mock();
    defender.squadrons[0].quantity = 0;
    kalaxia::game::fleet::combat::attack_fleet(&attacker, &mut defender, &fire_mock);
    let left: u32 = defender.squadrons.iter().map(|s| s.quantity as u32).sum();
    assert!(left < 30);
    assert_eq!(0, defender.squadrons[0].quantity);
}

#[test]
fn fight_round_needs_a_target() {
    let mut attacker = battle_fleet_mock();
    let mut defenders = vec![fleet_mock()];
    defenders[0].squadrons[0].quantity = 0;
    assert!(!kalaxia::game::fleet::combat::fight_round(&mut attacker, &mut defenders, &fire_mock));
    let mut defenders = vec![battle_fleet_mock()];
    assert!(kalaxia::game::fleet::combat::fight_round(&mut attacker, &mut defenders, &fire_mock));
}

#[test]
fn engage_fights_to_the_end() {
    let mut attacker = battle_fleet_mock();
    let mut defenders = vec![fleet_mock(), fleet_mock()];
    let won = kalaxia::game::fleet::combat::engage(&mut attacker, &mut defenders, &fire_mock);
    assert!(won);
    assert!(defenders.iter().all(|f| f.squadrons.is_empty() && f.is_destroyed));
    assert!(attacker.squadrons.iter().all(|s| s.quantity > 0));

    let mut weak = fleet_mock();
    let mut strong = vec![battle_fleet_mock()];
    assert!(!kalaxia::game::fleet::combat::engage(&mut weak, &mut strong, &fire_mock));
    assert!(weak.squadrons.is_empty());
    assert!(!strong[0].squadrons.is_empty());
}

#[test]
fn formations_read_back_from_their_names() {
    for f in [FleetFormation::Left, FleetFormation::Center, FleetFormation::Right, FleetFormation::Rear] {
        assert_eq!(f, FleetFormation::parse(f.name()).unwrap());
        assert_eq!(f, f.name().parse::<FleetFormation>().unwrap());
    }
    assert!(matches!(FleetFormation::parse("Left"), Err(InternalError::Conflict)));
}

#[test]
fn finishing_a_battle_names_the_victor() {
    let mut battle = battle_mock();
    battle.defender_faction = Some(FactionID(1));
    for fleet in battle.fleets[0].1.iter_mut() {
        for s in fleet.squadrons.iter_mut() {
            s.quantity = 0;
        }
    }
    assert!(battle.finish(Time(42)).is_ok());
    assert_eq!(Some(FactionID(2)), battle.victor);
    assert_eq!(Some(Time(42)), battle.ended_at);
    assert!(battle.attackers_won());

    let mut empty = battle_mock();
    for (_, fleets) in empty.fleets.iter_mut() {
        fleets.clear();
    }
    assert!(empty.finish(Time(7)).is_err());
    assert_eq!(None, empty.victor);
    assert_eq!(None, empty.ended_at);
    assert!(!empty.attackers_won());
}
