use bitcraft_server::items::{ItemStack, ItemType};
use bitcraft_server::placeables::{
    any_owned_closer, meets_level_requirements, scale_interaction_output, validate_building_distance_rules,
    validate_group_rules, validate_interaction_target, validate_knowledges, validate_level_requirements,
    validate_interaction, validate_location_rules, validate_other_placeable_distance_rules, validate_placement_site,
    validate_placer, ClaimInfo, InteractionCheck, InteractionError, InteractionPlan, DimensionInfo, KnowledgeAction, LevelRequirement, NearbyBuilding, OwnedPlaceable, PlaceableDesc,
    PlaceableGroupDesc, PlaceablePlacementDesc, PlaceableState, PlacementError, PlacementSite, TerrainCell,
};
use bitcraft_server::progress::{PlayerProgress, SkillLevel};

fn desc() -> PlaceableDesc {
    PlaceableDesc {
        id: 1,
        spawns_in_water: true,
        spawns_on_land: true,
        water_depth_min: 2,
        water_depth_max: 5,
        land_elevation_min: 0,
        land_elevation_max: 10,
    }
}

fn land(elevation: i32) -> Option<TerrainCell> {
    Some(TerrainCell { submerged: false, water_depth: 0, elevation })
}

fn water(depth: i32) -> Option<TerrainCell> {
    Some(TerrainCell { submerged: true, water_depth: depth, elevation: 0 })
}

fn recipe() -> PlaceablePlacementDesc {
    PlaceablePlacementDesc {
        placed_placeable_id: 1,
        required_knowledges: vec![],
        blocking_knowledges: vec![],
        level_requirements: vec![],
        required_paving_tier: -1,
        required_interior_tier: 0,
        required_claim_tier: 0,
        min_distance_to_player_claims: 0,
        min_distance_to_existing_footprints: 0,
        min_distance_to_group: 0,
        min_distance_to_other_placeables: 0,
        buildings: vec![],
        max_distance_to_buildings: 0,
    }
}

fn site() -> PlacementSite {
    PlacementSite {
        terrain: land(3),
        in_required_biome: true,
        paving_tier: None,
        dimension: Some(DimensionInfo { interior_instance_id: 0, interior_tier: 0 }),
        in_overworld: true,
        claim: None,
        claims_nearby: false,
        footprints_nearby: false,
    }
}

fn owned(entity_id: u64, placeable_id: i32, distance: i32) -> OwnedPlaceable {
    OwnedPlaceable { entity_id, placeable_id, distance }
}

fn progress(level: i32, knowledges: Vec<i32>) -> PlayerProgress {
    PlayerProgress { skill_levels: vec![SkillLevel { skill_id: 1, level }], base_level: 1, acquired_knowledges: knowledges }
}

#[test]
fn spawn_terrain_rules() {
    let d = desc();
    assert_eq!(PlaceableState::validate_spawn_terrain(None, &d), Err(PlacementError::InvalidLocation));
    assert_eq!(PlaceableState::validate_spawn_terrain(water(1), &d), Err(PlacementError::WaterTooShallow));
    assert_eq!(PlaceableState::validate_spawn_terrain(water(6), &d), Err(PlacementError::WaterTooDeep));
    assert_eq!(PlaceableState::validate_spawn_terrain(water(2), &d), Ok(()));
    assert_eq!(PlaceableState::validate_spawn_terrain(land(-1), &d), Err(PlacementError::TooLow));
    assert_eq!(PlaceableState::validate_spawn_terrain(land(11), &d), Err(PlacementError::TooHigh));
    assert_eq!(PlaceableState::validate_spawn_terrain(land(10), &d), Ok(()));
    let land_only = PlaceableDesc { spawns_in_water: false, ..d };
    assert_eq!(PlaceableState::validate_spawn_terrain(water(3), &land_only), Err(PlacementError::MustBePlacedOnLand));
    let water_only = PlaceableDesc { spawns_on_land: false, ..d };
    assert_eq!(PlaceableState::validate_spawn_terrain(land(3), &water_only), Err(PlacementError::MustBePlacedInWater));
    assert_eq!(PlacementError::WaterTooDeep.message(), Some("The water level is too deep."));
    assert_eq!(PlacementError::GroupFull(0, 3).message(), None);
}

#[test]
fn spawn_tile_validity() {
    let d = desc();
    assert!(PlaceableState::is_valid_spawn_tile(land(3), &d, false, false, true, false));
    assert!(!PlaceableState::is_valid_spawn_tile(land(3), &d, true, false, true, true));
    assert!(!PlaceableState::is_valid_spawn_tile(land(3), &d, false, true, true, true));
    assert!(!PlaceableState::is_valid_spawn_tile(land(3), &d, false, false, false, false));
    assert!(PlaceableState::is_valid_spawn_tile(land(3), &d, false, false, false, true));
    assert!(!PlaceableState::is_valid_spawn_tile(land(30), &d, false, false, true, true));
}

#[test]
fn radius_band_is_normalized() {
    assert_eq!(PlaceableState::normalized_radius_band(-3, -5), (0, 0));
    assert_eq!(PlaceableState::normalized_radius_band(2, 1), (2, 2));
    assert_eq!(PlaceableState::normalized_radius_band(1, 4), (1, 4));
}

#[test]
fn knowledge_rules_for_placing_and_interacting() {
    let p = progress(1, vec![5, 6]);
    assert_eq!(validate_knowledges(&vec![5], &vec![], Some(&p), KnowledgeAction::Place), Ok(()));
    assert_eq!(
        validate_knowledges(&vec![7], &vec![], Some(&p), KnowledgeAction::Place),
        Err(PlacementError::MissingKnowledge(KnowledgeAction::Place))
    );
    assert_eq!(
        validate_knowledges(&vec![], &vec![5, 6], Some(&p), KnowledgeAction::Interact),
        Err(PlacementError::NoLongerNeeded(KnowledgeAction::Interact))
    );
    assert_eq!(validate_knowledges(&vec![], &vec![5, 9], Some(&p), KnowledgeAction::Place), Ok(()));
    assert_eq!(
        validate_knowledges(&vec![], &vec![5], None, KnowledgeAction::Place),
        Err(PlacementError::MissingKnowledgeState)
    );
    assert_eq!(
        validate_knowledges(&vec![5], &vec![], None, KnowledgeAction::Place),
        Err(PlacementError::MissingKnowledge(KnowledgeAction::Place))
    );
    assert_eq!(
        PlacementError::NoLongerNeeded(KnowledgeAction::Place).message(),
        Some("You don't need to place this anymore")
    );
}

#[test]
fn level_rules() {
    let p = progress(4, vec![]);
    let reqs = vec![LevelRequirement { skill_id: 1, level: 4 }, LevelRequirement { skill_id: 2, level: 1 }];
    assert_eq!(validate_level_requirements(&reqs, Some(&p)), Ok(()));
    let too_high = vec![LevelRequirement { skill_id: 2, level: 2 }];
    assert_eq!(validate_level_requirements(&too_high, Some(&p)), Err(PlacementError::LevelTooLow));
    assert_eq!(validate_level_requirements(&too_high, None), Err(PlacementError::NoExperienceState));
    assert_eq!(validate_level_requirements(&vec![], None), Ok(()));
    assert!(meets_level_requirements(&reqs, &p));
    assert!(!meets_level_requirements(&too_high, &p));
}

#[test]
fn placer_checks_knowledge_before_levels() {
    let mut r = recipe();
    r.required_knowledges = vec![8];
    r.level_requirements = vec![LevelRequirement { skill_id: 1, level: 9 }];
    assert_eq!(validate_placer(&r, Some(&progress(1, vec![]))), Err(PlacementError::MissingKnowledge(KnowledgeAction::Place)));
    assert_eq!(validate_placer(&r, Some(&progress(1, vec![8]))), Err(PlacementError::LevelTooLow));
    assert_eq!(validate_placer(&r, Some(&progress(9, vec![8]))), Ok(()));
}

#[test]
fn location_rules_in_order() {
    let d = desc();
    let r = recipe();
    assert_eq!(validate_location_rules(&site(), &r, &d), Ok(()));
    assert_eq!(validate_location_rules(&PlacementSite { terrain: None, ..site() }, &r, &d), Err(PlacementError::InvalidLocation));
    assert_eq!(validate_location_rules(&PlacementSite { in_required_biome: false, ..site() }, &r, &d), Err(PlacementError::WrongBiome));
    assert_eq!(validate_location_rules(&PlacementSite { terrain: land(99), ..site() }, &r, &d), Err(PlacementError::TooHigh));
    let paved0 = PlaceablePlacementDesc { required_paving_tier: 0, ..recipe() };
    assert_eq!(validate_location_rules(&site(), &paved0, &d), Err(PlacementError::RequiresPaving));
    let paved2 = PlaceablePlacementDesc { required_paving_tier: 2, ..recipe() };
    assert_eq!(validate_location_rules(&PlacementSite { paving_tier: Some(1), ..site() }, &paved2, &d), Err(PlacementError::RequiresPavingTier(2)));
    assert_eq!(validate_location_rules(&PlacementSite { paving_tier: Some(2), ..site() }, &paved2, &d), Ok(()));
    assert_eq!(validate_location_rules(&PlacementSite { dimension: None, ..site() }, &r, &d), Err(PlacementError::InvalidDimension));
    let overworld_only = PlaceablePlacementDesc { required_interior_tier: -1, ..recipe() };
    let interior = Some(DimensionInfo { interior_instance_id: 4, interior_tier: 2 });
    assert_eq!(validate_location_rules(&PlacementSite { dimension: interior, ..site() }, &overworld_only, &d), Err(PlacementError::OverworldOnly));
    let tier3 = PlaceablePlacementDesc { required_interior_tier: 3, ..recipe() };
    assert_eq!(validate_location_rules(&site(), &tier3, &d), Err(PlacementError::RequiresInteriorTier(3)));
    assert_eq!(validate_location_rules(&PlacementSite { dimension: interior, ..site() }, &tier3, &d), Err(PlacementError::RequiresInteriorTier(3)));
    let claimed = PlaceablePlacementDesc { required_claim_tier: 2, ..recipe() };
    assert_eq!(validate_location_rules(&site(), &claimed, &d), Err(PlacementError::NeedsClaim));
    assert_eq!(
        validate_location_rules(&PlacementSite { claim: Some(ClaimInfo { max_tier: None }), ..site() }, &claimed, &d),
        Err(PlacementError::ClaimMissingTechTree)
    );
    assert_eq!(
        validate_location_rules(&PlacementSite { claim: Some(ClaimInfo { max_tier: Some(1) }), ..site() }, &claimed, &d),
        Err(PlacementError::RequiresClaimTier(2))
    );
    let spaced = PlaceablePlacementDesc { min_distance_to_player_claims: 3, min_distance_to_existing_footprints: 2, ..recipe() };
    assert_eq!(validate_location_rules(&PlacementSite { claims_nearby: true, ..site() }, &spaced, &d), Err(PlacementError::TooCloseToClaim));
    assert_eq!(
        validate_location_rules(&PlacementSite { claims_nearby: true, in_overworld: false, ..site() }, &spaced, &d),
        Ok(())
    );
    assert_eq!(validate_location_rules(&PlacementSite { footprints_nearby: true, ..site() }, &spaced, &d), Err(PlacementError::TooCloseToStructure));
}

#[test]
fn distance_to_own_placeables() {
    let mine = vec![owned(1, 1, 5), owned(2, 1, 2)];
    assert!(any_owned_closer(&mine, 3));
    assert!(!any_owned_closer(&mine, 2));
    let r = PlaceablePlacementDesc { min_distance_to_other_placeables: 3, ..recipe() };
    assert_eq!(validate_other_placeable_distance_rules(&mine, &r), Err(PlacementError::TooCloseToOwnPlaceable));
    assert_eq!(validate_other_placeable_distance_rules(&mine, &recipe()), Ok(()));
}

#[test]
fn buildings_nearby() {
    let r = PlaceablePlacementDesc { buildings: vec![40], max_distance_to_buildings: 5, ..recipe() };
    let far = vec![NearbyBuilding { building_description_id: 40, same_dimension: true, distance: 6 }];
    let other_dim = vec![NearbyBuilding { building_description_id: 40, same_dimension: false, distance: 1 }];
    let near = vec![NearbyBuilding { building_description_id: 40, same_dimension: true, distance: 5 }];
    assert_eq!(validate_building_distance_rules(&far, &r), Err(PlacementError::MustBeNearBuilding));
    assert_eq!(validate_building_distance_rules(&other_dim, &r), Err(PlacementError::MustBeNearBuilding));
    assert_eq!(validate_building_distance_rules(&near, &r), Ok(()));
    assert_eq!(validate_building_distance_rules(&vec![], &recipe()), Ok(()));
}

#[test]
fn full_group_is_refused_or_its_oldest_replaced() {
    let groups = vec![PlaceableGroupDesc { placeable_ids: vec![1, 2], placement_limit: 2 }];
    let mine = vec![owned(9, 1, 10), owned(4, 2, 10), owned(7, 3, 10)];
    let r = recipe();
    assert_eq!(validate_group_rules(&groups, &mine, 1, &r, false, false), Err(PlacementError::GroupFull(0, 2)));
    assert_eq!(validate_group_rules(&groups, &mine, 1, &r, true, false), Ok(vec![4]));
    assert_eq!(validate_group_rules(&groups, &mine, 1, &r, true, true), Ok(vec![]));
    assert_eq!(validate_group_rules(&groups, &mine, 3, &r, false, false), Ok(vec![]));
    let unlimited = vec![PlaceableGroupDesc { placeable_ids: vec![1, 2], placement_limit: -1 }];
    assert_eq!(validate_group_rules(&unlimited, &mine, 1, &r, false, false), Ok(vec![]));
}

#[test]
fn group_distance_counts_members_before_despawn() {
    let groups = vec![PlaceableGroupDesc { placeable_ids: vec![1], placement_limit: 1 }];
    let mine = vec![owned(4, 1, 1)];
    let r = PlaceablePlacementDesc { min_distance_to_group: 2, ..recipe() };
    assert_eq!(validate_group_rules(&groups, &mine, 1, &r, true, false), Err(PlacementError::TooCloseToOwnPlaceable));
}

#[test]
fn two_groups_each_replace_their_oldest() {
    let groups = vec![
        PlaceableGroupDesc { placeable_ids: vec![1, 2], placement_limit: 1 },
        PlaceableGroupDesc { placeable_ids: vec![1, 3], placement_limit: 1 },
    ];
    let mine = vec![owned(5, 2, 10), owned(6, 3, 10)];
    assert_eq!(validate_group_rules(&groups, &mine, 1, &recipe(), true, false), Ok(vec![5, 6]));
}

#[test]
fn placement_site_runs_every_rule() {
    let d = desc();
    let groups = vec![PlaceableGroupDesc { placeable_ids: vec![1], placement_limit: 1 }];
    let mine = vec![owned(4, 1, 10)];
    let r = PlaceablePlacementDesc { buildings: vec![40], max_distance_to_buildings: 5, ..recipe() };
    let near = vec![NearbyBuilding { building_description_id: 40, same_dimension: true, distance: 1 }];
    assert_eq!(validate_placement_site(&site(), &r, &d, &mine, &groups, &near, true, false), Ok(vec![4]));
    assert_eq!(
        validate_placement_site(&site(), &r, &d, &mine, &groups, &vec![], true, false),
        Err(PlacementError::MustBeNearBuilding)
    );
    assert_eq!(
        validate_placement_site(&PlacementSite { terrain: None, ..site() }, &r, &d, &mine, &groups, &near, true, false),
        Err(PlacementError::InvalidLocation)
    );
}

#[test]
fn interaction_target_and_output() {
    let p = PlaceableState { entity_id: 1, owner_entity_id: 10, placeable_id: 5, direction_index: 0 };
    assert_eq!(validate_interaction_target(&p, 11, 5), Err(PlacementError::NoPermission));
    assert_eq!(validate_interaction_target(&p, 10, 6), Err(PlacementError::InvalidOperation));
    assert_eq!(validate_interaction_target(&p, 10, 5), Ok(()));
    let stacks = vec![
        ItemStack { item_id: 1, quantity: 2, item_type: ItemType::Item, durability: None },
        ItemStack { item_id: 2, quantity: 0, item_type: ItemType::Cargo, durability: None },
    ];
    let out = scale_interaction_output(&stacks, 3);
    assert_eq!(out, vec![ItemStack { item_id: 1, quantity: 6, item_type: ItemType::Item, durability: None }]);
    assert!(scale_interaction_output(&stacks, 0).is_empty());
}

#[test]
fn interaction_checks_in_order() {
    let p = PlaceableState { entity_id: 1, owner_entity_id: 10, placeable_id: 5, direction_index: 0 };
    let ok = InteractionCheck {
        actor_id: 10,
        placeable: Some(p),
        recipe_placeable_id: Some(5),
        terrain_found: true,
        swimming_unmounted: false,
        placeable_has_location: true,
        within_range: true,
        enough_stamina: Some(true),
        tool_required: true,
        tool_found: true,
        allow_use_hands: false,
    };
    let me = progress(3, vec![1]);
    let levels = vec![LevelRequirement { skill_id: 1, level: 4 }];
    let v = |c: &InteractionCheck, req: Vec<i32>, block: Vec<i32>, lv: &Vec<LevelRequirement>, pr: Option<&PlayerProgress>| {
        validate_interaction(c, &req, &block, lv, pr)
    };
    assert_eq!(v(&ok, vec![1], vec![], &vec![], Some(&me)), Ok(InteractionPlan { uses_tool: true, meets_levels: true }));
    assert_eq!(v(&ok, vec![1], vec![], &levels, Some(&me)), Ok(InteractionPlan { uses_tool: true, meets_levels: false }));
    assert_eq!(v(&InteractionCheck { placeable: None, ..ok }, vec![], vec![], &vec![], Some(&me)), Err(InteractionError::PlaceableGone));
    assert_eq!(v(&InteractionCheck { actor_id: 11, ..ok }, vec![], vec![], &vec![], Some(&me)), Err(InteractionError::NoPermission));
    assert_eq!(v(&InteractionCheck { recipe_placeable_id: None, ..ok }, vec![], vec![], &vec![], Some(&me)), Err(InteractionError::UnknownInteraction));
    assert_eq!(v(&InteractionCheck { recipe_placeable_id: Some(6), ..ok }, vec![], vec![], &vec![], Some(&me)), Err(InteractionError::InvalidOperation));
    assert_eq!(v(&InteractionCheck { terrain_found: false, swimming_unmounted: true, ..ok }, vec![], vec![], &vec![], Some(&me)), Err(InteractionError::InvalidLocation));
    assert_eq!(InteractionError::InvalidLocation.message(), Some("Invalid location"));
    assert_eq!(v(&InteractionCheck { swimming_unmounted: true, ..ok }, vec![], vec![], &vec![], Some(&me)), Err(InteractionError::CannotInteractWhileSwimming));
    assert_eq!(v(&InteractionCheck { placeable_has_location: false, ..ok }, vec![], vec![], &vec![], Some(&me)), Err(InteractionError::MissingLocation));
    assert_eq!(v(&InteractionCheck { within_range: false, ..ok }, vec![], vec![], &vec![], Some(&me)), Err(InteractionError::TooFar));
    assert_eq!(v(&ok, vec![2], vec![], &vec![], Some(&me)), Err(InteractionError::MissingKnowledge));
    assert_eq!(v(&ok, vec![], vec![1], &vec![], Some(&me)), Err(InteractionError::NoLongerNeeded));
    assert_eq!(v(&ok, vec![], vec![1], &vec![], None), Err(InteractionError::MissingKnowledgeState));
    assert_eq!(v(&InteractionCheck { enough_stamina: None, ..ok }, vec![], vec![], &vec![], Some(&me)), Err(InteractionError::MissingStaminaState));
    assert_eq!(v(&InteractionCheck { enough_stamina: Some(false), ..ok }, vec![], vec![], &vec![], Some(&me)), Err(InteractionError::NotEnoughStamina));
    assert_eq!(v(&InteractionCheck { tool_found: false, ..ok }, vec![], vec![], &vec![], Some(&me)), Err(InteractionError::ToolMissing));
    assert_eq!(
        v(&InteractionCheck { tool_found: false, allow_use_hands: true, ..ok }, vec![], vec![], &vec![], Some(&me)),
        Ok(InteractionPlan { uses_tool: false, meets_levels: true })
    );
    assert_eq!(v(&ok, vec![], vec![], &levels, None), Err(InteractionError::NoExperienceState));
    assert_eq!(InteractionError::TooFar.message(), Some("You are too far."));
}
