use bitcraft_server::admin::AdminError;
use bitcraft_server::empires::{
    empire_creation_cost, empire_creation_refund, validate_empire_create, validate_empire_donation, validate_empire_withdrawal, validate_hexite_capsule_collection,
    withdrawn_stack, EmpireCreateCheck, EmpireDonation, EmpireError,
};
use bitcraft_server::food::{food_output, validate_eat, EatCheck, EatError};
use bitcraft_server::items::{ItemStack, ItemType};
use bitcraft_server::sessions::{
    admin_rename_player_entity, identity_connected, identity_disconnected, player_restore_skills, sign_in, ConnectingIdentity,
    SessionError, SessionState,
};
use bitcraft_server::sieges::{admin_clean_sieges, count_active_sieges, NodeSiege, SiegeEngine};

fn create_ok() -> EmpireCreateCheck {
    EmpireCreateCheck {
        naming_allowed: true,
        name_valid: true,
        already_member: false,
        claim_owner: Some(1),
        already_capital: false,
        name_taken: false,
        settlement_empire: Some(0),
        icon_is_shape: Some(false),
        shape_is_shape: Some(true),
        colors_known: true,
    }
}

fn item(item_id: i32, quantity: i32, item_type: ItemType) -> ItemStack {
    ItemStack { item_id, quantity, item_type, durability: None }
}

fn siege(entity_id: u64, building: u64, active: bool) -> NodeSiege {
    NodeSiege { entity_id, building_entity_id: building, active }
}

fn person() -> ConnectingIdentity {
    ConnectingIdentity { is_developer: false, can_skip_queue: false, blocked: false, authenticated: true }
}

#[test]
fn empire_creation_checks_in_order() {
    assert_eq!(validate_empire_create(&create_ok(), 1), Ok(()));
    assert_eq!(validate_empire_create(&EmpireCreateCheck { naming_allowed: false, ..create_ok() }, 1), Err(EmpireError::NamingSuspended));
    assert_eq!(validate_empire_create(&EmpireCreateCheck { name_valid: false, ..create_ok() }, 1), Err(EmpireError::InvalidName));
    assert_eq!(validate_empire_create(&EmpireCreateCheck { already_member: true, ..create_ok() }, 1), Err(EmpireError::AlreadyInEmpire));
    assert_eq!(validate_empire_create(&EmpireCreateCheck { claim_owner: None, ..create_ok() }, 1), Err(EmpireError::NotAClaim));
    assert_eq!(validate_empire_create(&create_ok(), 2), Err(EmpireError::NotClaimOwner));
    assert_eq!(validate_empire_create(&EmpireCreateCheck { already_capital: true, ..create_ok() }, 1), Err(EmpireError::AlreadyCapital));
    assert_eq!(validate_empire_create(&EmpireCreateCheck { name_taken: true, ..create_ok() }, 1), Err(EmpireError::NameTaken));
    assert_eq!(validate_empire_create(&EmpireCreateCheck { settlement_empire: None, ..create_ok() }, 1), Err(EmpireError::NoEmpireTech));
    assert_eq!(validate_empire_create(&EmpireCreateCheck { settlement_empire: Some(8), ..create_ok() }, 1), Err(EmpireError::ClaimInEmpire));
    assert_eq!(validate_empire_create(&EmpireCreateCheck { icon_is_shape: Some(true), ..create_ok() }, 1), Err(EmpireError::InvalidIcon));
    assert_eq!(validate_empire_create(&EmpireCreateCheck { icon_is_shape: None, ..create_ok() }, 1), Err(EmpireError::InvalidIcon));
    assert_eq!(validate_empire_create(&EmpireCreateCheck { shape_is_shape: Some(false), ..create_ok() }, 1), Err(EmpireError::InvalidShape));
    assert_eq!(validate_empire_create(&EmpireCreateCheck { colors_known: false, ..create_ok() }, 1), Err(EmpireError::InvalidColors));
    assert_eq!(EmpireError::InvalidColors.message(), "Invalid empire colors");
}

#[test]
fn donations_send_the_whole_stack() {
    let coins = item(5, 12, ItemType::Item);
    assert_eq!(validate_empire_donation(-1, 4, Some(coins), Some(true)), Err(EmpireError::InvalidPocket));
    assert_eq!(validate_empire_donation(4, 4, Some(coins), Some(true)), Err(EmpireError::InvalidPocket));
    assert_eq!(validate_empire_donation(0, 4, None, Some(true)), Err(EmpireError::PocketEmpty));
    assert_eq!(validate_empire_donation(0, 4, Some(item(5, 0, ItemType::Item)), Some(true)), Err(EmpireError::PocketEmpty));
    assert_eq!(validate_empire_donation(0, 4, Some(item(5, 1, ItemType::Cargo)), Some(true)), Err(EmpireError::CargoNotDonatable));
    assert_eq!(validate_empire_donation(0, 4, Some(coins), None), Err(EmpireError::InvalidItem));
    assert_eq!(validate_empire_donation(0, 4, Some(coins), Some(false)), Err(EmpireError::ItemNotDonatable));
    assert_eq!(
        validate_empire_donation(3, 4, Some(coins), Some(true)),
        Ok(EmpireDonation { item_id: 5, count: 12, is_cargo: false })
    );
}

#[test]
fn withdrawals_and_what_they_give() {
    assert_eq!(validate_empire_withdrawal(false, 5, ItemType::Item, Some(true), 3), Err(EmpireError::NoWithdrawPermission));
    assert_eq!(validate_empire_withdrawal(true, 5, ItemType::Cargo, Some(true), 3), Err(EmpireError::CargoNotWithdrawable));
    assert_eq!(validate_empire_withdrawal(true, 5, ItemType::Item, None, 3), Err(EmpireError::InvalidItem));
    assert_eq!(validate_empire_withdrawal(true, 5, ItemType::Item, Some(false), 3), Err(EmpireError::ItemNotWithdrawable));
    let w = validate_empire_withdrawal(true, 5, ItemType::Item, Some(true), 3).unwrap();
    assert_eq!(withdrawn_stack(&w), item(5, 3, ItemType::Item));
    let huge = EmpireDonation { item_id: 5, count: u32::MAX, is_cargo: false };
    assert_eq!(withdrawn_stack(&huge).quantity, -1);
}

#[test]
fn hexite_capsule_checks() {
    assert_eq!(validate_hexite_capsule_collection(4, true, false, &vec![]), Err(EmpireError::TooFar));
    assert_eq!(validate_hexite_capsule_collection(3, false, false, &vec![]), Err(EmpireError::NoCapsulePermission));
    assert_eq!(validate_hexite_capsule_collection(3, true, false, &vec![]), Ok(()));
    assert_eq!(validate_hexite_capsule_collection(3, true, true, &vec![]), Err(EmpireError::AlreadyCarryingCargo));
    assert_eq!(validate_hexite_capsule_collection(3, true, true, &vec![false, false]), Err(EmpireError::NoRoom));
    assert_eq!(validate_hexite_capsule_collection(3, true, true, &vec![false, true]), Ok(()));
}

#[test]
fn cleaning_sieges() {
    let sieges = vec![
        siege(1, 100, true),
        siege(2, 100, true),
        siege(3, 100, false),
        siege(4, 200, true),
        siege(5, 200, false),
        siege(6, 300, false),
        siege(7, 400, true),
        siege(8, 400, true),
        siege(9, 400, true),
    ];
    let engines = vec![
        SiegeEngine { entity_id: 50, building_entity_id: 200 },
        SiegeEngine { entity_id: 51, building_entity_id: 100 },
        SiegeEngine { entity_id: 52, building_entity_id: 400 },
    ];
    assert!(matches!(admin_clean_sieges(false, &sieges, &engines), Err(AdminError::Unauthorized)));
    let cleanup = admin_clean_sieges(true, &sieges, &engines).ok().unwrap();
    assert_eq!(cleanup.kept, vec![siege(1, 100, true), siege(2, 100, true), siege(6, 300, false)]);
    assert_eq!(cleanup.removed.iter().map(|s| s.entity_id).collect::<Vec<_>>(), vec![3, 4, 5, 7, 8, 9]);
    assert_eq!(cleanup.destroyed_engines.iter().map(|e| e.entity_id).collect::<Vec<_>>(), vec![50, 52]);
    assert_eq!(cleanup.unmarked, 2);
    assert_eq!(cleanup.terminated, 4);
    let again = admin_clean_sieges(true, &cleanup.kept, &vec![]).ok().unwrap();
    assert_eq!(again.kept, cleanup.kept);
    assert!(again.removed.is_empty());
    assert_eq!(count_active_sieges(&sieges, 400), 3);
    assert_eq!(AdminError::Unauthorized.message(), "Unauthorized");
}

#[test]
fn newest_connection_wins() {
    let mut s = SessionState { active_connection: None, signed_in: false };
    assert_eq!(identity_connected(&mut s, true, Some(1), &person()), Ok(()));
    sign_in(&mut s);
    assert_eq!(identity_connected(&mut s, true, Some(2), &person()), Ok(()));
    identity_disconnected(&mut s, true, Some(1));
    assert_eq!(s, SessionState { active_connection: Some(2), signed_in: true });
    identity_disconnected(&mut s, true, Some(2));
    assert_eq!(s, SessionState { active_connection: None, signed_in: false });
}

#[test]
fn refused_connections_change_nothing() {
    let mut s = SessionState { active_connection: Some(7), signed_in: true };
    let blocked = ConnectingIdentity { blocked: true, ..person() };
    assert_eq!(identity_connected(&mut s, true, Some(8), &blocked), Err(SessionError::Unauthorized));
    assert_eq!(s, SessionState { active_connection: Some(7), signed_in: true });
    let developer = ConnectingIdentity { is_developer: true, authenticated: false, ..blocked };
    assert_eq!(identity_connected(&mut s, true, Some(8), &developer), Ok(()));
    assert_eq!(s.active_connection, Some(8));
    let unknown = ConnectingIdentity { authenticated: false, ..person() };
    assert_eq!(identity_connected(&mut s, false, Some(9), &unknown), Err(SessionError::Unauthorized));
    identity_disconnected(&mut s, false, Some(8));
    assert_eq!(s.active_connection, Some(8));
}

#[test]
fn account_commands() {
    assert_eq!(player_restore_skills(false, 1, 2, true, true), Err(SessionError::Unauthorized));
    assert_eq!(player_restore_skills(true, 1, 2, false, true), Err(SessionError::PlayerNotFound));
    assert_eq!(player_restore_skills(false, 2, 2, true, false), Err(SessionError::NoStoredExperience));
    assert_eq!(player_restore_skills(false, 2, 2, true, true), Ok(()));
    assert_eq!(admin_rename_player_entity(false, false), Err(SessionError::Unauthorized));
    assert_eq!(admin_rename_player_entity(true, true), Err(SessionError::NameUnavailable));
    assert_eq!(admin_rename_player_entity(true, false), Ok(()));
    assert_eq!(SessionError::NoStoredExperience.message(), "Player has no stored experience");
}

#[test]
fn eating_checks_and_leftovers() {
    let ok = EatCheck { sleeping: false, has_inventory: true, pocket_item_id: Some(3), consumable_in_combat: Some(false), in_combat: false };
    assert_eq!(validate_eat(&ok), Ok(()));
    assert_eq!(validate_eat(&EatCheck { sleeping: true, ..ok }), Err(EatError::Sleeping));
    assert_eq!(validate_eat(&EatCheck { has_inventory: false, ..ok }), Err(EatError::NoInventory));
    assert_eq!(validate_eat(&EatCheck { pocket_item_id: None, ..ok }), Err(EatError::InvalidPocket));
    assert_eq!(validate_eat(&EatCheck { pocket_item_id: Some(0), ..ok }), Err(EatError::NothingToEat));
    assert_eq!(validate_eat(&EatCheck { consumable_in_combat: None, ..ok }), Err(EatError::NotFood));
    assert_eq!(validate_eat(&EatCheck { in_combat: true, ..ok }), Err(EatError::InCombat));
    assert_eq!(validate_eat(&EatCheck { in_combat: true, consumable_in_combat: Some(true), ..ok }), Ok(()));
    let bowl = vec![item(9, 1, ItemType::Item)];
    assert_eq!(food_output(&bowl, 3), vec![item(9, 1, ItemType::Item); 3]);
    assert!(food_output(&bowl, 0).is_empty());
    assert!(food_output(&bowl, -2).is_empty());
    assert_eq!(EatError::InCombat.message(), "Cannot eat this while in combat");
}

#[test]
fn donation_gives_back_the_donated_stack() {
    let coins = item(5, 2_000_000_000, ItemType::Item);
    let donation = validate_empire_donation(1, 4, Some(coins), Some(true)).unwrap();
    assert_eq!(withdrawn_stack(&donation), coins);
}

#[test]
fn a_refused_empire_creation_refunds_the_shards() {
    assert_eq!(empire_creation_refund(true, 9, 250), Some((9, 250)));
    assert_eq!(empire_creation_refund(false, 9, 250), None);
}

#[test]
fn a_refused_creation_gives_back_what_it_withdrew() {
    let cost = empire_creation_cost(9, 250);
    assert_eq!(cost, (9, 250));
    assert_eq!(empire_creation_refund(true, 9, 250), Some(cost));
}
