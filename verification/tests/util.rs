use kalaxia::game::faction::FactionID;
use kalaxia::util::auth::bearer_token;
use kalaxia::util::error::InternalError;
use kalaxia::util::pagination::content_range;
use kalaxia::util::sort::{sort_by_keys, stable_order};
use kalaxia::util::sync::SyncOnceCell;
use kalaxia::util::text::str_eq;
use kalaxia::util::time::Time;
use kalaxia::util::uuid::Uuid;

#[test]
fn status_codes_of_internal_errors() {
    assert_eq!(401, InternalError::NoAuthorizationGiven.status_code());
    assert_eq!(403, InternalError::AccessDenied.status_code());
    assert_eq!(404, InternalError::NotFound("player").status_code());
    assert_eq!(409, InternalError::Conflict.status_code());
    assert_eq!(409, InternalError::AlreadyInLobby.status_code());
    assert_eq!(409, InternalError::NotInLobby.status_code());
    assert_eq!(409, InternalError::NotEnoughMoney.status_code());
    assert_eq!(409, InternalError::FleetInvalidDestination.status_code());
    assert_eq!(409, InternalError::FleetAlreadyTravelling.status_code());
    assert_eq!(409, InternalError::FleetEmpty.status_code());
    assert_eq!(409, InternalError::PlayerUsernameAlreadyTaken.status_code());
    assert_eq!(500, InternalError::FactionUnknown.status_code());
    assert_eq!(500, InternalError::GameUnknown.status_code());
    assert_eq!(500, InternalError::LobbyUnknown.status_code());
    assert_eq!(500, InternalError::SystemUnknown.status_code());
    assert_eq!(500, InternalError::PlayerUnknown.status_code());
}

#[test]
fn not_found_names_the_entity() {
    assert!(matches!(InternalError::not_found(&FactionID(1)), InternalError::NotFound("faction")));
}

#[test]
fn stable_sort_keeps_ties_in_order() {
    let keys = vec![3i128, 1, 3, 2];
    assert_eq!(vec![1usize, 3, 0, 2], stable_order(&keys, false));
    assert_eq!(vec![2usize, 0, 3, 1], stable_order(&keys, true));
    let items = vec!["a", "b", "c", "d"];
    assert_eq!(vec!["b", "d", "a", "c"], sort_by_keys(items, &keys, false));
}

#[test]
fn once_cell_keeps_its_first_value() {
    let mut cell: SyncOnceCell<u32> = SyncOnceCell::new();
    assert_eq!(None, cell.get());
    cell.set(4);
    cell.set(9);
    assert_eq!(Some(&4), cell.get());
}

#[test]
fn content_range_of_a_page() {
    assert_eq!((20, 30), content_range(10, 3, 10));
    assert_eq!((0, 4), content_range(10, 1, 4));
}

#[test]
fn bearer_token_is_the_last_word() {
    assert_eq!("abc.def", bearer_token("Bearer abc.def"));
    assert_eq!("token", bearer_token("token"));
    assert_eq!("", bearer_token("Bearer "));
}

#[test]
fn strings_compare_character_wise() {
    assert!(str_eq("fleet", "fleet"));
    assert!(!str_eq("fleet", "fleets"));
    assert!(!str_eq("left", "rear"));
}

#[test]
fn random_identifiers_are_version_four() {
    let id: Uuid<FactionID> = Uuid::new();
    let bits = id.as_u128();
    assert_eq!(0x4000_8000_0000_0000_0000u128, bits & 0xf000_c000_0000_0000_0000u128);
    let other: Uuid<FactionID> = Uuid::new();
    assert_ne!(bits, other.as_u128());
}

#[test]
fn time_moves_forward() {
    let now = Time::now();
    assert!(now.0 > 1_500_000_000_000);
    assert_eq!(Time(now.0 + 250), now.plus_millis(250));
}
