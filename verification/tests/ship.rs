use kalaxia::game::fleet::fleet::FleetID;
use kalaxia::game::fleet::formation::FleetFormation;
use kalaxia::game::fleet::ship::{
    get_ship_construction_time, get_ship_model, plan_assign_ships, ShipGroup, ShipGroupID,
    ShipModelCategory as GroupCategory, ShipQuantityData as GroupRequest,
};
use kalaxia::game::fleet::squadron::{FleetSquadron, FleetSquadronID};
use kalaxia::game::player::{Player, PlayerID};
use kalaxia::game::ship::model::ShipModelCategory;
use kalaxia::game::ship::queue::{assigned_fleet_key, parse_fleet_key, ShipQueue, ShipQueueID};
use kalaxia::game::ship::squadron::{Squadron, SquadronID};
use kalaxia::game::system::system::SystemID;
use kalaxia::util::error::InternalError;
use kalaxia::util::store::StoreAction;
use kalaxia::util::time::Time;

fn fresh() -> u128 {
    uuid::Uuid::new_v4().as_u128()
}

fn player_mock(wallet: usize) -> Player {
    Player {
        id: PlayerID(fresh()),
        username: String::from("captain"),
        game: None,
        lobby: None,
        faction: None,
        ready: true,
        wallet,
        is_connected: true,
    }
}

#[test]
fn test_ship_model_data() {
    let fighter = ShipModelCategory::Fighter.to_data();

    assert_eq!(fighter.category, ShipModelCategory::Fighter);

    let cruiser = ShipModelCategory::Cruiser.to_data();

    assert_eq!(cruiser.category, ShipModelCategory::Cruiser);

    assert_ne!(fighter.cost, cruiser.cost);
}

#[test]
fn ship_models_hold_their_characteristics() {
    let frigate = ShipModelCategory::Frigate.to_data();
    assert_eq!(25, frigate.strength);
    assert_eq!(2000, frigate.construction_time);
    assert_eq!(250, frigate.cost);
    assert_eq!(100, frigate.hit_points);
    let cruiser = ShipModelCategory::Cruiser.to_data();
    assert_eq!(600, cruiser.cost);
    assert_eq!(7000, cruiser.construction_time);
}

#[test]
fn schedule_takes_the_price_of_the_ships() {
    let mut player = player_mock(1000);
    let cost = ShipModelCategory::Corvette.to_data().cost as usize;
    let r = ShipQueue::plan_schedule(&mut player, true, ShipModelCategory::Corvette, 3, false);
    assert_eq!(Some(3), r.unwrap());
    assert_eq!(1000 - 3 * cost, player.wallet);
}

#[test]
fn schedule_needs_a_shipyard() {
    let mut player = player_mock(1000);
    let r = ShipQueue::plan_schedule(&mut player, false, ShipModelCategory::Fighter, 3, false);
    assert!(matches!(r, Err(InternalError::Conflict)));
    assert_eq!(1000, player.wallet);
}

#[test]
fn schedule_refuses_what_the_wallet_cannot_pay() {
    let mut player = player_mock(10);
    let r = ShipQueue::plan_schedule(&mut player, true, ShipModelCategory::Cruiser, 1, false);
    assert!(matches!(r, Err(InternalError::NotEnoughMoney)));
    assert_eq!(10, player.wallet);
}

#[test]
fn schedule_only_affordable_ships() {
    let cost = ShipModelCategory::Cruiser.to_data().cost as usize;
    let mut player = player_mock(2 * cost + 1);
    let r = ShipQueue::plan_schedule(&mut player, true, ShipModelCategory::Cruiser, 5, true);
    assert_eq!(Some(2), r.unwrap());
    assert_eq!(1, player.wallet);

    let mut poor = player_mock(cost - 1);
    let r = ShipQueue::plan_schedule(&mut poor, true, ShipModelCategory::Cruiser, 5, true);
    assert_eq!(None, r.unwrap());
    assert_eq!(cost - 1, poor.wallet);
}

#[test]
fn fleet_key_reads_back() {
    let fleet = FleetID(0x550e8400_e29b_41d4_a716_446655440000);
    let key = assigned_fleet_key(fleet, FleetFormation::Rear);
    assert_eq!("550e8400-e29b-41d4-a716-446655440000:rear", key);
    assert_eq!((fleet, FleetFormation::Rear), parse_fleet_key(&key).unwrap());
}

#[test]
fn fleet_key_with_unknown_parts_is_refused() {
    // an unreadable identifier is a fault of the stored data
    assert!(matches!(parse_fleet_key("not-an-id:left"), Err(InternalError::MalformedIdentifier)));
    assert_eq!(500, InternalError::MalformedIdentifier.status_code());
    // an unknown formation is a conflict
    assert!(matches!(
        parse_fleet_key("550e8400-e29b-41d4-a716-446655440000:middle"),
        Err(InternalError::Conflict)
    ));
    // only the field after the first colon names the formation
    assert_eq!(
        FleetFormation::Left,
        parse_fleet_key("550e8400-e29b-41d4-a716-446655440000:left:extra").unwrap().1
    );
}

#[test]
fn queue_destination() {
    let mut queue = ShipQueue {
        id: ShipQueueID(fresh()),
        system: SystemID(fresh()),
        category: ShipModelCategory::Fighter,
        quantity: 4,
        assigned_fleet: None,
        created_at: Time(0),
        started_at: Time(0),
        finished_at: Time(1600),
    };
    assert_eq!(None, queue.destination().unwrap());
    let fleet = FleetID(fresh());
    queue.assigned_fleet = Some(assigned_fleet_key(fleet, FleetFormation::Center));
    assert_eq!(Some((fleet, FleetFormation::Center)), queue.destination().unwrap());
}

#[test]
fn squadron_plan_assign() {
    let system = SystemID(fresh());
    let existing = Squadron { id: SquadronID(1), system, category: ShipModelCategory::Fighter, quantity: 4 };
    assert!(matches!(
        Squadron::plan_assign(Some(existing), SquadronID(2), system, ShipModelCategory::Fighter, 7),
        StoreAction::Update(Squadron { quantity: 7, id: SquadronID(1), .. })
    ));
    assert!(matches!(
        Squadron::plan_assign(Some(existing), SquadronID(2), system, ShipModelCategory::Fighter, 0),
        StoreAction::Remove(Squadron { id: SquadronID(1), .. })
    ));
    assert!(matches!(
        Squadron::plan_assign(None, SquadronID(2), system, ShipModelCategory::Fighter, 3),
        StoreAction::Insert(Squadron { quantity: 3, id: SquadronID(2), .. })
    ));
    assert!(matches!(
        Squadron::plan_assign(None, SquadronID(2), system, ShipModelCategory::Fighter, -1),
        StoreAction::Nothing
    ));
    assert_eq!(11, Squadron::existing_quantity(&Some(existing), 7));
    assert_eq!(7, Squadron::existing_quantity(&None, 7));
}

#[test]
fn fleet_squadron_plan_assign() {
    let fleet = FleetID(fresh());
    let existing = FleetSquadron {
        id: FleetSquadronID(1),
        fleet,
        formation: FleetFormation::Left,
        category: ShipModelCategory::Fighter,
        quantity: 4,
    };
    assert!(matches!(
        FleetSquadron::plan_assign(
            Some(existing),
            FleetSquadronID(2),
            fleet,
            FleetFormation::Left,
            ShipModelCategory::Corvette,
            3
        ),
        Err(InternalError::Conflict)
    ));
    assert!(matches!(
        FleetSquadron::plan_assign(
            Some(existing),
            FleetSquadronID(2),
            fleet,
            FleetFormation::Left,
            ShipModelCategory::Fighter,
            9
        ),
        Ok(StoreAction::Update(FleetSquadron { quantity: 9, .. }))
    ));
    assert!(matches!(
        FleetSquadron::plan_assign(None, FleetSquadronID(2), fleet, FleetFormation::Left, ShipModelCategory::Fighter, 0),
        Ok(StoreAction::Nothing)
    ));
    assert_eq!(9, FleetSquadron::existing_quantity(&Some(existing), 5));
}

#[test]
fn ship_group_model_and_construction_time() {
    let model = get_ship_model(GroupCategory::Fighter);
    assert_eq!(400, model.construction_time);
    assert_eq!(20, model.cost);
    assert_eq!(Time(1_000_000 + 1200), get_ship_construction_time(model, 3, Time(1_000_000)));
}

fn group(quantity: u16, system: Option<SystemID>, fleet: Option<FleetID>) -> ShipGroup {
    ShipGroup { id: ShipGroupID(fresh()), system, fleet, category: GroupCategory::Fighter, quantity }
}

#[test]
fn assign_ships_moves_ships_into_the_fleet() {
    let player = PlayerID(fresh());
    let fleet = FleetID(fresh());
    let system = SystemID(fresh());
    let in_orbit = group(10, Some(system), None);
    let request = GroupRequest { category: GroupCategory::Fighter, quantity: 4 };
    let (fleet_action, system_action) =
        plan_assign_ships(player, Some(player), fleet, player, Some(in_orbit), None, ShipGroupID(7), request).unwrap();
    assert!(matches!(fleet_action, StoreAction::Insert(ShipGroup { quantity: 4, id: ShipGroupID(7), .. })));
    assert!(matches!(system_action, StoreAction::Update(ShipGroup { quantity: 6, .. })));

    // the fleet's ships count as available
    let in_fleet = group(5, None, Some(fleet));
    let request = GroupRequest { category: GroupCategory::Fighter, quantity: 15 };
    let (fleet_action, system_action) =
        plan_assign_ships(player, Some(player), fleet, player, Some(in_orbit), Some(in_fleet), ShipGroupID(7), request)
            .unwrap();
    assert!(matches!(fleet_action, StoreAction::Update(ShipGroup { quantity: 15, .. })));
    assert!(matches!(system_action, StoreAction::Remove(_)));
}

#[test]
fn assign_ships_errors() {
    let player = PlayerID(fresh());
    let fleet = FleetID(fresh());
    let system = SystemID(fresh());
    let in_orbit = group(10, Some(system), None);
    let request = GroupRequest { category: GroupCategory::Fighter, quantity: 4 };
    assert!(matches!(
        plan_assign_ships(player, None, fleet, player, Some(in_orbit), None, ShipGroupID(7), request),
        Err(InternalError::AccessDenied)
    ));
    assert!(matches!(
        plan_assign_ships(player, Some(player), fleet, PlayerID(fresh()), Some(in_orbit), None, ShipGroupID(7), request),
        Err(InternalError::AccessDenied)
    ));
    assert!(matches!(
        plan_assign_ships(player, Some(player), fleet, player, None, None, ShipGroupID(7), request),
        Err(InternalError::NotFound(_))
    ));
    let too_many = GroupRequest { category: GroupCategory::Fighter, quantity: 11 };
    assert!(matches!(
        plan_assign_ships(player, Some(player), fleet, player, Some(in_orbit), None, ShipGroupID(7), too_many),
        Err(InternalError::Conflict)
    ));
}
