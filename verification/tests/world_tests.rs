use std::collections::HashSet;

use bitcraft_server::deployables::{validate_deployable_follow, water_depth_allowed, FollowCheck, FollowError, PathfindingDesc};
use bitcraft_server::expel::{
    closest_open_neighbor, deployed_player_deployables, nearest_ruined_waystone, neighbor_destinations, region_bounds,
    validate_expel, ExpelError, PlayerDeployable, RegionBounds, WaystoneCandidate, TELEPORT_OFFSET_FROM_REGION_EDGE,
};
use bitcraft_server::growth::{
    due_growths, grown_resource_target, growth_agent_step, growth_announcements, scheduled_growth_step, spawn_area, GrowthRow, GrowthStep, SpawnArea,
    INACTIVE_HEXITE_SEALED_CHEST_GROWTH_ID, MICROS_PER_MINUTE,
};
use bitcraft_server::resources::{lower_world_target, resources_to_delete, ResourceLogEntry};
use bitcraft_server::respawn::{
    clump_tiles, interior_restores, interior_spawn_anchor, live_interiors, resources_at, validate_building_respawn, validate_interior_respawn,
    BuildingSpawnInfo, DimensionDescription, LocatedEntity, RespawnError, TileCoord,
};
use bitcraft_server::watchtowers::{
    first_duplicate_chunk, npc_watchtower_placements, watchtower_nickname, watchtower_nicknames, taken_watchtower_sites, validate_watchtower_request, watchtower_results,
    world_clear_npc_watchtowers, OffsetCoordinatesSmall, WatchtowerError, WatchtowerSiteCheck, WorldEntityPlacement,
};

fn good_site() -> WatchtowerSiteCheck {
    WatchtowerSiteCheck { footprint_valid: true, dimension_valid: true, overlaps_claims: false, near_claim_totem: false }
}

fn pos(x: i32, z: i32) -> OffsetCoordinatesSmall {
    OffsetCoordinatesSmall { x, z, dimension: 1 }
}

#[test]
fn watchtower_request_checks() {
    let chunks = vec![vec![1, 2], vec![3]];
    assert_eq!(validate_watchtower_request(false, 2, &chunks, true, 90), Err(WatchtowerError::Unauthorized));
    assert_eq!(validate_watchtower_request(true, 3, &chunks, true, 90), Err(WatchtowerError::PositionCountMismatch(3, 2)));
    assert_eq!(validate_watchtower_request(true, 2, &chunks, false, 90), Err(WatchtowerError::UnknownBuildingDesc(90)));
    assert_eq!(validate_watchtower_request(true, 2, &chunks, true, 90), Ok(()));
    let dup = vec![vec![1, 2], vec![3, 2, 1]];
    assert_eq!(validate_watchtower_request(true, 2, &dup, true, 90), Err(WatchtowerError::DuplicateChunkIndex(2)));
}

#[test]
fn first_duplicate_is_the_first_repeat() {
    assert_eq!(first_duplicate_chunk(&vec![vec![5, 6], vec![7, 6, 5]]), Some(6));
    assert_eq!(first_duplicate_chunk(&vec![vec![4, 4]]), Some(4));
    assert_eq!(first_duplicate_chunk(&vec![vec![1], vec![], vec![2]]), None);
    assert_eq!(first_duplicate_chunk(&vec![]), None);
}

#[test]
fn taken_sites_and_placements() {
    let checks = vec![
        good_site(),
        WatchtowerSiteCheck { overlaps_claims: true, ..good_site() },
        WatchtowerSiteCheck { near_claim_totem: true, ..good_site() },
        WatchtowerSiteCheck { footprint_valid: false, ..good_site() },
        good_site(),
    ];
    assert_eq!(taken_watchtower_sites(&checks, false), vec![0, 4]);
    assert_eq!(taken_watchtower_sites(&checks, true), vec![0, 1, 4]);
    let positions = vec![pos(0, 0), pos(1, 1), pos(2, 2), pos(3, 3), pos(4, 4)];
    let chunks = vec![vec![10], vec![11], vec![12], vec![13], vec![14, 15]];
    let taken = vec![0, 4];
    let placements = npc_watchtower_placements(&positions, &chunks, &taken, &vec![700, 701]);
    assert_eq!(placements.len(), 2);
    assert_eq!(placements[1].building_entity_id, 701);
    assert_eq!(placements[1].location, pos(4, 4));
    assert_eq!(placements[1].chunk_indexes, vec![14, 15]);
    let dry = watchtower_results(&positions, &taken, &vec![], 90, true);
    assert_eq!(dry, vec![
        WorldEntityPlacement { entity_id: 0, coordinates: pos(0, 0), prototype_id: 90 },
        WorldEntityPlacement { entity_id: 0, coordinates: pos(4, 4), prototype_id: 90 },
    ]);
    let real = watchtower_results(&positions, &taken, &vec![700, 701], 90, false);
    assert_eq!(real[0].entity_id, 700);
}

#[test]
fn clearing_watchtowers_deletes_each_once() {
    let existing: HashSet<u64> = HashSet::from([1, 2, 3]);
    assert_eq!(world_clear_npc_watchtowers(false, &vec![1], &existing), Err(WatchtowerError::Unauthorized));
    assert_eq!(world_clear_npc_watchtowers(true, &vec![2, 9, 2, 1], &existing), Ok(vec![2, 1]));
}

#[test]
fn expel_preconditions() {
    assert_eq!(validate_expel(false, true, Some(false)), Err(ExpelError::Unauthorized));
    assert_eq!(validate_expel(true, false, Some(false)), Err(ExpelError::RegionStateNotFound));
    assert_eq!(validate_expel(true, true, None), Err(ExpelError::RegionControlNotFound));
    assert_eq!(validate_expel(true, true, Some(true)), Err(ExpelError::RegionStillOpen));
    assert_eq!(validate_expel(true, true, Some(false)), Ok(()));
    assert_eq!(ExpelError::NoAdjacentRegion.message(), "No adjacent region accepts players");
}

#[test]
fn region_bounds_and_neighbors() {
    let b = region_bounds(1, 0, 4, 2, 32, 32);
    assert_eq!(b, RegionBounds { min_x: 128, min_z: 0, max_x: 256, max_z: 64 });
    let found = neighbor_destinations(1, 0, 3, b, 140, 10);
    assert_eq!(found.len(), 3);
    assert_eq!((found[0].x_offset, found[0].z_offset, found[0].distance), (-1, 0, 12));
    assert_eq!((found[0].destination_x, found[0].destination_z), (128 - TELEPORT_OFFSET_FROM_REGION_EDGE, 10));
    assert_eq!((found[0].neighbor_x, found[0].neighbor_z), (0, 0));
    assert_eq!((found[1].x_offset, found[1].distance, found[1].destination_x), (1, 116, 256 + TELEPORT_OFFSET_FROM_REGION_EDGE));
    assert_eq!((found[2].z_offset, found[2].distance, found[2].destination_z), (1, 54, 64 + TELEPORT_OFFSET_FROM_REGION_EDGE));
    assert_eq!(closest_open_neighbor(&found, &vec![true, true, true]), Ok(0));
    assert_eq!(closest_open_neighbor(&found, &vec![false, true, true]), Ok(2));
    assert_eq!(closest_open_neighbor(&found, &vec![false, false, false]), Err(ExpelError::NoAdjacentRegion));
}

#[test]
fn closest_neighbor_ties_keep_the_first() {
    let b = RegionBounds { min_x: 0, min_z: 0, max_x: 10, max_z: 10 };
    let found = neighbor_destinations(1, 1, 3, b, 5, 5);
    assert_eq!(found.len(), 4);
    assert_eq!(closest_open_neighbor(&found, &vec![false, true, true, true]), Ok(1));
}

#[test]
fn nearest_waystone_by_distance_then_id() {
    let w = vec![
        WaystoneCandidate { entity_id: 5, distance: 3, eligible: true },
        WaystoneCandidate { entity_id: 2, distance: 3, eligible: true },
        WaystoneCandidate { entity_id: 1, distance: 1, eligible: false },
        WaystoneCandidate { entity_id: 9, distance: 4, eligible: true },
    ];
    assert_eq!(nearest_ruined_waystone(&w), Some(1));
    assert_eq!(nearest_ruined_waystone(&vec![WaystoneCandidate { entity_id: 1, distance: 1, eligible: false }]), None);
}

#[test]
fn stored_deployables_per_player() {
    let d = vec![
        PlayerDeployable { entity_id: 1, owner_id: 20, mobile: true, siege_engine: false },
        PlayerDeployable { entity_id: 2, owner_id: 10, mobile: true, siege_engine: false },
        PlayerDeployable { entity_id: 3, owner_id: 10, mobile: false, siege_engine: false },
        PlayerDeployable { entity_id: 4, owner_id: 10, mobile: true, siege_engine: true },
        PlayerDeployable { entity_id: 5, owner_id: 20, mobile: true, siege_engine: false },
    ];
    assert_eq!(deployed_player_deployables(&vec![10, 20], &d), vec![2, 1, 5]);
    assert!(deployed_player_deployables(&vec![30], &d).is_empty());
}

#[test]
fn follow_checks() {
    let ok = FollowCheck {
        actor_id: 1,
        deployable_entity_id: 50,
        mounted_deployable: None,
        has_origin: true,
        has_destination: true,
        points_close: true,
        origin_water_depth: Some(3),
        target_water_depth: Some(4),
        deployable_water_depth: Some(3),
        owner_id: Some(1),
        description_found: true,
        pathfinding: Some(PathfindingDesc { min_water_depth: 2, max_water_depth: 5 }),
        auto_follow: Some(true),
    };
    assert_eq!(validate_deployable_follow(&ok), Ok(()));
    assert_eq!(validate_deployable_follow(&FollowCheck { mounted_deployable: Some(50), ..ok }), Err(FollowError::MountedCannotFollow));
    assert_eq!(validate_deployable_follow(&FollowCheck { mounted_deployable: Some(51), ..ok }), Ok(()));
    assert_eq!(validate_deployable_follow(&FollowCheck { has_origin: false, ..ok }), Err(FollowError::MissingOrigin));
    assert_eq!(validate_deployable_follow(&FollowCheck { has_destination: false, ..ok }), Err(FollowError::MissingDestination));
    assert_eq!(validate_deployable_follow(&FollowCheck { points_close: false, ..ok }), Err(FollowError::InvalidCoordinates));
    assert_eq!(validate_deployable_follow(&FollowCheck { target_water_depth: None, ..ok }), Err(FollowError::CannotGoHere));
    assert_eq!(validate_deployable_follow(&FollowCheck { owner_id: None, ..ok }), Err(FollowError::DeployableNotFound));
    assert_eq!(validate_deployable_follow(&FollowCheck { owner_id: Some(2), ..ok }), Err(FollowError::NotOwner));
    assert_eq!(validate_deployable_follow(&FollowCheck { description_found: false, ..ok }), Err(FollowError::InvalidDeployableType));
    assert_eq!(validate_deployable_follow(&FollowCheck { pathfinding: None, ..ok }), Err(FollowError::InvalidPathfinding));
    assert_eq!(validate_deployable_follow(&FollowCheck { deployable_water_depth: Some(6), ..ok }), Err(FollowError::CannotGoHere));
    assert_eq!(validate_deployable_follow(&FollowCheck { auto_follow: None, ..ok }), Err(FollowError::NoCollectibleState));
    assert_eq!(validate_deployable_follow(&FollowCheck { auto_follow: Some(false), ..ok }), Err(FollowError::NotAutoFollow));
    assert!(water_depth_allowed(2, &PathfindingDesc { min_water_depth: 2, max_water_depth: 5 }));
    assert!(!water_depth_allowed(1, &PathfindingDesc { min_water_depth: 2, max_water_depth: 5 }));
    assert_eq!(FollowError::NotOwner.message(), "~You don't own that deployable");
}

#[test]
fn growth_steps() {
    let rows = vec![
        GrowthRow { entity_id: 1, end_timestamp: 5 },
        GrowthRow { entity_id: 2, end_timestamp: 10 },
        GrowthRow { entity_id: 3, end_timestamp: 9 },
    ];
    assert_eq!(due_growths(&rows, 10), vec![1, 3]);
    assert_eq!(growth_agent_step(false, false, true), GrowthStep::Gone);
    assert_eq!(growth_agent_step(true, true, false), GrowthStep::MissingLocation);
    assert_eq!(growth_agent_step(true, true, true), GrowthStep::GrowResource);
    assert_eq!(growth_agent_step(false, true, true), GrowthStep::GrowPlaceable);
    assert_eq!(scheduled_growth_step(false, false, true, true), GrowthStep::Gone);
    assert_eq!(scheduled_growth_step(true, true, false, true), GrowthStep::MissingLocation);
    assert_eq!(scheduled_growth_step(true, true, true, false), GrowthStep::MissingRecipe);
    assert_eq!(scheduled_growth_step(true, true, true, true), GrowthStep::GrowPlaceable);
    assert_eq!(scheduled_growth_step(false, true, true, true), GrowthStep::GrowResource);
}

#[test]
fn spawn_areas() {
    assert_eq!(spawn_area(0, 1, 5), SpawnArea::Nowhere);
    assert_eq!(spawn_area(7, -2, 0), SpawnArea::Center);
    assert_eq!(spawn_area(7, 3, 1), SpawnArea::Band(3, 3));
    assert_eq!(spawn_area(7, -1, 4), SpawnArea::Band(0, 4));
}

#[test]
fn sealed_chest_announcements() {
    let end = 10 * 60 * MICROS_PER_MINUTE;
    let a = growth_announcements(INACTIVE_HEXITE_SEALED_CHEST_GROWTH_ID, end);
    assert_eq!(a, vec![
        (end - 60 * MICROS_PER_MINUTE, "1 hour"),
        (end - 15 * MICROS_PER_MINUTE, "15 minutes"),
        (end - 5 * MICROS_PER_MINUTE, "5 minutes"),
    ]);
    assert!(growth_announcements(1, end).is_empty());
}

#[test]
fn building_respawn_checks() {
    let spawn = BuildingSpawnInfo { is_resource_spawn: true, spawn_ids: vec![33, 34] };
    assert_eq!(validate_building_respawn(false, Some(&spawn), true), Err(RespawnError::Unauthorized));
    assert_eq!(validate_building_respawn(true, None, true), Err(RespawnError::InvalidBuildingSpawnDesc));
    let not_resource = BuildingSpawnInfo { is_resource_spawn: false, spawn_ids: vec![33] };
    assert_eq!(validate_building_respawn(true, Some(&not_resource), true), Err(RespawnError::BuildingSpawnNotResource));
    let empty = BuildingSpawnInfo { is_resource_spawn: true, spawn_ids: vec![] };
    assert_eq!(validate_building_respawn(true, Some(&empty), true), Err(RespawnError::MissingResourceId));
    assert_eq!(validate_building_respawn(true, Some(&spawn), false), Err(RespawnError::InvalidResourceId));
    assert_eq!(validate_building_respawn(true, Some(&spawn), true), Ok(33));
}

#[test]
fn interior_respawn_checks_and_tiles() {
    assert_eq!(validate_interior_respawn(true, None, true, true, true), Err(RespawnError::InvalidInteriorSpawnDesc));
    assert_eq!(validate_interior_respawn(true, Some(false), true, true, true), Err(RespawnError::InteriorSpawnNotResource));
    assert_eq!(validate_interior_respawn(true, Some(true), false, true, true), Err(RespawnError::InvalidInteriorInstance));
    assert_eq!(validate_interior_respawn(true, Some(true), true, false, true), Err(RespawnError::InvalidInteriorShape));
    assert_eq!(validate_interior_respawn(true, Some(true), true, true, false), Err(RespawnError::InvalidResourceClump));
    assert_eq!(validate_interior_respawn(true, Some(true), true, true, true), Ok(()));
    let dims = vec![
        DimensionDescription { dimension_id: 2, dimension_network_entity_id: 20, interior_instance_id: 7 },
        DimensionDescription { dimension_id: 3, dimension_network_entity_id: 30, interior_instance_id: 8 },
        DimensionDescription { dimension_id: 4, dimension_network_entity_id: 40, interior_instance_id: 7 },
    ];
    let live = live_interiors(&dims, 7);
    assert_eq!(live.iter().map(|d| d.dimension_id).collect::<Vec<_>>(), vec![2, 4]);
    let anchor = interior_spawn_anchor(10, 12, -3, 2, 4);
    assert_eq!(anchor, TileCoord { x: 13, z: 10, dimension: 4 });
    let tiles = clump_tiles(anchor, &vec![0, 1, 2], &vec![0, -1]);
    assert_eq!(tiles, vec![TileCoord { x: 13, z: 10, dimension: 4 }, TileCoord { x: 14, z: 9, dimension: 4 }]);
    let entities = vec![
        LocatedEntity { entity_id: 1, coordinates: TileCoord { x: 14, z: 9, dimension: 4 }, is_resource: true },
        LocatedEntity { entity_id: 2, coordinates: TileCoord { x: 14, z: 9, dimension: 4 }, is_resource: false },
        LocatedEntity { entity_id: 3, coordinates: TileCoord { x: 14, z: 9, dimension: 5 }, is_resource: true },
        LocatedEntity { entity_id: 4, coordinates: TileCoord { x: 13, z: 10, dimension: 4 }, is_resource: true },
    ];
    assert_eq!(resources_at(&entities, &tiles), vec![1, 4]);
}

#[test]
fn deleted_resources_are_a_random_pick() {
    let ctx = spacetimedb::ReducerContext::__dummy();
    let ids: Vec<u64> = (1..=20).collect();
    let all = resources_to_delete(ctx.rng(), ids.clone(), 20);
    let mut sorted = all.clone();
    sorted.sort();
    assert_eq!(sorted, ids);
    assert_ne!(all, ids);
    let some = resources_to_delete(ctx.rng(), ids.clone(), 5);
    assert_eq!(some.len(), 5);
    let distinct: HashSet<u64> = some.iter().copied().collect();
    assert_eq!(distinct.len(), 5);
    assert!(some.iter().all(|id| ids.contains(id)));
    assert!(resources_to_delete(ctx.rng(), ids, 0).is_empty());
}

#[test]
fn world_target_follows_deletions() {
    let mut log = vec![
        ResourceLogEntry { resource_id: 3, world_target: 10 },
        ResourceLogEntry { resource_id: 4, world_target: 50 },
        ResourceLogEntry { resource_id: 4, world_target: 70 },
    ];
    assert!(lower_world_target(&mut log, 4, 8));
    assert_eq!(log[1].world_target, 42);
    assert_eq!(log[2].world_target, 70);
    assert!(!lower_world_target(&mut log, 5, 8));
    assert_eq!(log[0].world_target, 10);
}

#[test]
fn watchtowers_are_nicknamed_after_the_npc_empire() {
    assert_eq!(watchtower_nickname("Ancient Order", "Watchtower"), "Ancient Order's Watchtower");
    let nicknames = watchtower_nicknames(&vec![40, 41], "Ancient Order", "Watchtower");
    assert_eq!(nicknames.len(), 2);
    assert_eq!(nicknames[1].entity_id, 41);
    assert_eq!(nicknames[1].nickname, "Ancient Order's Watchtower");
}

#[test]
fn interior_restores_clear_the_clump_then_respawn_at_the_anchor() {
    let dims = vec![
        DimensionDescription { dimension_id: 4, dimension_network_entity_id: 40, interior_instance_id: 7 },
        DimensionDescription { dimension_id: 5, dimension_network_entity_id: 50, interior_instance_id: 8 },
        DimensionDescription { dimension_id: 6, dimension_network_entity_id: 60, interior_instance_id: 7 },
    ];
    let entities = vec![
        LocatedEntity { entity_id: 1, coordinates: TileCoord { x: 10, z: 3, dimension: 4 }, is_resource: true },
        LocatedEntity { entity_id: 2, coordinates: TileCoord { x: 11, z: 3, dimension: 6 }, is_resource: true },
        LocatedEntity { entity_id: 3, coordinates: TileCoord { x: 10, z: 3, dimension: 6 }, is_resource: false },
    ];
    let centers = vec![
        vec![TileCoord { x: 10, z: 3, dimension: 4 }, TileCoord { x: 11, z: 3, dimension: 4 }],
        vec![TileCoord { x: 10, z: 3, dimension: 6 }, TileCoord { x: 11, z: 3, dimension: 6 }],
    ];
    assert!(interior_restores(false, &dims, 7, 12, 5, 2, 2, &entities, &centers).is_empty());
    let restores = interior_restores(true, &dims, 7, 12, 5, 2, 2, &entities, &centers);
    assert_eq!(restores.len(), 2);
    assert_eq!(restores[0].dimension_network_entity_id, 40);
    assert_eq!(restores[0].location, TileCoord { x: 10, z: 3, dimension: 4 });
    assert_eq!(restores[0].removed, vec![1]);
    assert_eq!(restores[1].dimension_network_entity_id, 60);
    assert_eq!(restores[1].location, TileCoord { x: 10, z: 3, dimension: 6 });
    assert_eq!(restores[1].removed, vec![2]);
}

#[test]
fn a_grown_resource_turns_into_its_target_only_when_named_and_rolled() {
    assert_eq!(grown_resource_target(55, true), Some(55));
    assert_eq!(grown_resource_target(55, false), None);
    assert_eq!(grown_resource_target(0, true), None);
}
