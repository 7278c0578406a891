//! Placeables: where one may spawn, and the rules a player's placement of
//! one must pass.
use vstd::prelude::*;

use crate::items::ItemStack;
use crate::progress::{acquired, contains_i32, profile_value, skill_level, PlayerProgress};

verus! {

/// A placed object, owned by the player who placed it.
#[derive(Clone, Copy, Debug, PartialEq, Eq)]
pub struct PlaceableState {
    pub entity_id: u64,
    pub owner_entity_id: u64,
    pub placeable_id: i32,
    pub direction_index: i32,
}

/// Where a kind of placeable may stand.
#[derive(Clone, Copy, Debug, PartialEq, Eq)]
pub struct PlaceableDesc {
    pub id: i32,
    pub spawns_in_water: bool,
    pub spawns_on_land: bool,
    pub water_depth_min: i32,
    pub water_depth_max: i32,
    pub land_elevation_min: i32,
    pub land_elevation_max: i32,
}

/// The terrain of a tile: whether it is under water, how deep, how high.
#[derive(Clone, Copy, Debug, PartialEq, Eq)]
pub struct TerrainCell {
    pub submerged: bool,
    pub water_depth: i32,
    pub elevation: i32,
}

/// A minimum level in a skill.
#[derive(Clone, Copy, Debug, PartialEq, Eq)]
pub struct LevelRequirement {
    pub skill_id: i32,
    pub level: i32,
}

/// The rules of a placement recipe.
#[derive(Clone, Debug)]
pub struct PlaceablePlacementDesc {
    pub placed_placeable_id: i32,
    pub required_knowledges: Vec<i32>,
    pub blocking_knowledges: Vec<i32>,
    pub level_requirements: Vec<LevelRequirement>,
    pub required_paving_tier: i32,
    pub required_interior_tier: i32,
    pub required_claim_tier: i32,
    pub min_distance_to_player_claims: i32,
    pub min_distance_to_existing_footprints: i32,
    pub min_distance_to_group: i32,
    pub min_distance_to_other_placeables: i32,
    pub buildings: Vec<i32>,
    pub max_distance_to_buildings: i32,
}

/// The dimension of a tile: its interior instance (0 in the overworld) and,
/// for an interior, the interior's tier.
#[derive(Clone, Copy, Debug, PartialEq, Eq)]
pub struct DimensionInfo {
    pub interior_instance_id: i32,
    pub interior_tier: i32,
}

/// The claim on a tile; `max_tier` is `None` when the claim has no tech tree.
#[derive(Clone, Copy, Debug, PartialEq, Eq)]
pub struct ClaimInfo {
    pub max_tier: Option<i32>,
}

/// What the placement rules read of the target tile.
#[derive(Clone, Copy, Debug, PartialEq, Eq)]
pub struct PlacementSite {
    /// The tile's terrain, `None` when it cannot be read.
    pub terrain: Option<TerrainCell>,
    /// The tile lies in one of the recipe's biomes (always so when the
    /// recipe names none).
    pub in_required_biome: bool,
    /// The tier of the paving on the tile, if paved.
    pub paving_tier: Option<i32>,
    pub dimension: Option<DimensionInfo>,
    pub in_overworld: bool,
    pub claim: Option<ClaimInfo>,
    /// Some claim lies within the recipe's claim distance (less one).
    pub claims_nearby: bool,
    /// Some footprint lies within the recipe's footprint distance (less one).
    pub footprints_nearby: bool,
}

/// A group of placeables that a player may only own a limited number of.
#[derive(Clone, Debug)]
pub struct PlaceableGroupDesc {
    pub placeable_ids: Vec<i32>,
    pub placement_limit: i32,
}

/// A placeable the player owns, with its distance to the target tile
/// (`i32::MAX` when it has no location).
#[derive(Clone, Copy, Debug, PartialEq, Eq)]
pub struct OwnedPlaceable {
    pub entity_id: u64,
    pub placeable_id: i32,
    pub distance: i32,
}

/// A building of the world, with whether it is in the target tile's
/// dimension and its distance to the tile.
#[derive(Clone, Copy, Debug, PartialEq, Eq)]
pub struct NearbyBuilding {
    pub building_description_id: i32,
    pub same_dimension: bool,
    pub distance: i32,
}

/// Which player action a knowledge check is for.
#[derive(Clone, Copy, Debug, PartialEq, Eq, Structural)]
pub enum KnowledgeAction {
    Place,
    Interact,
}

/// Why a spawn or a placement was refused.
#[derive(Clone, Copy, Debug, PartialEq, Eq, Structural)]
pub enum PlacementError {
    InvalidLocation,
    MustBePlacedOnLand,
    WaterTooShallow,
    WaterTooDeep,
    MustBePlacedInWater,
    TooLow,
    TooHigh,
    WrongBiome,
    RequiresPaving,
    /// Paving of at least this tier is needed.
    RequiresPavingTier(i32),
    InvalidDimension,
    OverworldOnly,
    /// An interior of at least this tier is needed.
    RequiresInteriorTier(i32),
    NeedsClaim,
    ClaimMissingTechTree,
    /// A claim of at least this tier is needed.
    RequiresClaimTier(i32),
    TooCloseToClaim,
    TooCloseToStructure,
    /// The player owns the limit of this group (the index of the group among
    /// the groups checked, and its limit).
    GroupFull(usize, i32),
    TooCloseToOwnPlaceable,
    MustBeNearBuilding,
    MissingKnowledge(KnowledgeAction),
    NoLongerNeeded(KnowledgeAction),
    MissingKnowledgeState,
    LevelTooLow,
    NoExperienceState,
    NoPermission,
    InvalidOperation,
}

impl PlacementError {
    /// The message shown to the player, for the errors whose message has no
    /// number or name in it.
    pub fn message(&self) -> (text: Option<&'static str>)
        ensures
            text == match *self {
                PlacementError::InvalidLocation => Some("Invalid location"),
                PlacementError::MustBePlacedOnLand => Some("This placeable must be placed on land"),
                PlacementError::WaterTooShallow => Some("The water level is too shallow."),
                PlacementError::WaterTooDeep => Some("The water level is too deep."),
                PlacementError::MustBePlacedInWater => Some("This placeable must be placed in water"),
                PlacementError::TooLow => Some("This placeable can't be placed that low"),
                PlacementError::TooHigh => Some("This placeable can't be placed that high"),
                PlacementError::WrongBiome => Some("Can't be placed in this biome"),
                PlacementError::RequiresPaving => Some("This placeable requires paving!"),
                PlacementError::InvalidDimension => Some("Invalid dimension"),
                PlacementError::OverworldOnly => Some("Can only be built in Overworld"),
                PlacementError::NeedsClaim => Some("This placeable needs to be placed on a claim"),
                PlacementError::ClaimMissingTechTree => Some("This claim is missing its tech tree"),
                PlacementError::TooCloseToClaim => Some("Too close to another claim"),
                PlacementError::TooCloseToStructure => Some("Too close to another structure"),
                PlacementError::TooCloseToOwnPlaceable => Some("Too close to another one of your placeables"),
                PlacementError::MustBeNearBuilding => Some("Must be placed near one of the required buildings"),
                PlacementError::MissingKnowledge(KnowledgeAction::Place) => Some(
                    "You don't have the knowledge required to place this",
                ),
                PlacementError::MissingKnowledge(KnowledgeAction::Interact) => Some(
                    "You don't have the knowledge required to perform this action",
                ),
                PlacementError::NoLongerNeeded(KnowledgeAction::Place) => Some("You don't need to place this anymore"),
                PlacementError::NoLongerNeeded(KnowledgeAction::Interact) => Some("You don't need this placeable anymore"),
                PlacementError::MissingKnowledgeState => Some("Player missing knowledge state"),
                PlacementError::LevelTooLow => Some("You don't meet the level requirements to place this"),
                PlacementError::NoExperienceState => Some("Player has no experience state"),
                PlacementError::NoPermission => Some("You don't have permission to interact with this placeable"),
                PlacementError::InvalidOperation => Some("Invalid operation"),
                _ => None,
            },
    {
        match self {
            PlacementError::InvalidLocation => Some("Invalid location"),
            PlacementError::MustBePlacedOnLand => Some("This placeable must be placed on land"),
            PlacementError::WaterTooShallow => Some("The water level is too shallow."),
            PlacementError::WaterTooDeep => Some("The water level is too deep."),
            PlacementError::MustBePlacedInWater => Some("This placeable must be placed in water"),
            PlacementError::TooLow => Some("This placeable can't be placed that low"),
            PlacementError::TooHigh => Some("This placeable can't be placed that high"),
            PlacementError::WrongBiome => Some("Can't be placed in this biome"),
            PlacementError::RequiresPaving => Some("This placeable requires paving!"),
            PlacementError::InvalidDimension => Some("Invalid dimension"),
            PlacementError::OverworldOnly => Some("Can only be built in Overworld"),
            PlacementError::NeedsClaim => Some("This placeable needs to be placed on a claim"),
            PlacementError::ClaimMissingTechTree => Some("This claim is missing its tech tree"),
            PlacementError::TooCloseToClaim => Some("Too close to another claim"),
            PlacementError::TooCloseToStructure => Some("Too close to another structure"),
            PlacementError::TooCloseToOwnPlaceable => Some("Too close to another one of your placeables"),
            PlacementError::MustBeNearBuilding => Some("Must be placed near one of the required buildings"),
            PlacementError::MissingKnowledge(KnowledgeAction::Place) => Some(
                "You don't have the knowledge required to place this",
            ),
            PlacementError::MissingKnowledge(KnowledgeAction::Interact) => Some(
                "You don't have the knowledge required to perform this action",
            ),
            PlacementError::NoLongerNeeded(KnowledgeAction::Place) => Some("You don't need to place this anymore"),
            PlacementError::NoLongerNeeded(KnowledgeAction::Interact) => Some("You don't need this placeable anymore"),
            PlacementError::MissingKnowledgeState => Some("Player missing knowledge state"),
            PlacementError::LevelTooLow => Some("You don't meet the level requirements to place this"),
            PlacementError::NoExperienceState => Some("Player has no experience state"),
            PlacementError::NoPermission => Some("You don't have permission to interact with this placeable"),
            PlacementError::InvalidOperation => Some("Invalid operation"),
            _ => None,
        }
    }
}


/// What an interaction with a placeable is checked against, in the order
/// of the checks. The player's distance and stamina are compared by the
/// caller; the knowledges and levels are checked here.
#[derive(Clone, Copy, Debug, PartialEq, Eq)]
pub struct InteractionCheck {
    pub actor_id: u64,
    /// The placeable, `None` when it no longer exists.
    pub placeable: Option<PlaceableState>,
    /// The kind of placeable the interaction is for, `None` for an unknown interaction.
    pub recipe_placeable_id: Option<i32>,
    /// The terrain cell under the player was found.
    pub terrain_found: bool,
    /// The player swims and rides no mount.
    pub swimming_unmounted: bool,
    pub placeable_has_location: bool,
    /// The player stands within the interaction's range (plus one tile).
    pub within_range: bool,
    /// Whether the player has the stamina the interaction takes (`None`: no stamina state).
    pub enough_stamina: Option<bool>,
    pub tool_required: bool,
    pub tool_found: bool,
    pub allow_use_hands: bool,
}

/// Why an interaction was refused.
#[derive(Clone, Copy, Debug, PartialEq, Eq, Structural)]
pub enum InteractionError {
    PlaceableGone,
    NoPermission,
    UnknownInteraction,
    InvalidOperation,
    /// No terrain cell lies under the player.
    InvalidLocation,
    CannotInteractWhileSwimming,
    MissingLocation,
    TooFar,
    MissingKnowledge,
    NoLongerNeeded,
    MissingKnowledgeState,
    MissingStaminaState,
    NotEnoughStamina,
    /// The required tool is missing (its own message comes with it).
    ToolMissing,
    NoExperienceState,
}

impl InteractionError {
    /// The message shown to the player, for errors with a fixed message.
    pub fn message(&self) -> (text: Option<&'static str>)
        ensures
            text == match *self {
                InteractionError::PlaceableGone => Some("That placeable no longer exists"),
                InteractionError::NoPermission => Some("You don't have permission to interact with this placeable"),
                InteractionError::UnknownInteraction => Some("Unknown placeable interaction"),
                InteractionError::InvalidOperation => Some("Invalid operation"),
                InteractionError::InvalidLocation => Some("Invalid location"),
                InteractionError::CannotInteractWhileSwimming => Some("Cannot interact while swimming"),
                InteractionError::MissingLocation => Some("Placeable is missing a location"),
                InteractionError::TooFar => Some("You are too far."),
                InteractionError::MissingKnowledge => Some("You don't have the knowledge required to perform this action"),
                InteractionError::NoLongerNeeded => Some("You don't need this placeable anymore"),
                InteractionError::MissingKnowledgeState => Some("Player missing knowledge state"),
                InteractionError::MissingStaminaState => Some("Player missing stamina component!"),
                InteractionError::NotEnoughStamina => Some("Not enough stamina!"),
                InteractionError::ToolMissing => None,
                InteractionError::NoExperienceState => Some("Player has no experience state"),
            },
    {
        match self {
            InteractionError::PlaceableGone => Some("That placeable no longer exists"),
            InteractionError::NoPermission => Some("You don't have permission to interact with this placeable"),
            InteractionError::UnknownInteraction => Some("Unknown placeable interaction"),
            InteractionError::InvalidOperation => Some("Invalid operation"),
            InteractionError::InvalidLocation => Some("Invalid location"),
            InteractionError::CannotInteractWhileSwimming => Some("Cannot interact while swimming"),
            InteractionError::MissingLocation => Some("Placeable is missing a location"),
            InteractionError::TooFar => Some("You are too far."),
            InteractionError::MissingKnowledge => Some("You don't have the knowledge required to perform this action"),
            InteractionError::NoLongerNeeded => Some("You don't need this placeable anymore"),
            InteractionError::MissingKnowledgeState => Some("Player missing knowledge state"),
            InteractionError::MissingStaminaState => Some("Player missing stamina component!"),
            InteractionError::NotEnoughStamina => Some("Not enough stamina!"),
            InteractionError::ToolMissing => None,
            InteractionError::NoExperienceState => Some("Player has no experience state"),
        }
    }
}

/// What an accepted interaction does: whether it uses the required tool
/// (rather than bare hands), and whether the player meets its levels (only
/// then it damages the placeable).
#[derive(Clone, Copy, Debug, PartialEq, Eq)]
pub struct InteractionPlan {
    pub uses_tool: bool,
    pub meets_levels: bool,
}

// ---------------------------------------------------------------------------
// Specifications
// ---------------------------------------------------------------------------

/// Whether a placeable of kind `desc` may stand on terrain `terrain`.
pub open spec fn spawn_terrain_verdict(terrain: Option<TerrainCell>, desc: PlaceableDesc) -> Result<(), PlacementError> {
    match terrain {
        None => Err(PlacementError::InvalidLocation),
        Some(t) => if t.submerged {
            if !desc.spawns_in_water {
                Err(PlacementError::MustBePlacedOnLand)
            } else if t.water_depth < desc.water_depth_min {
                Err(PlacementError::WaterTooShallow)
            } else if t.water_depth > desc.water_depth_max {
                Err(PlacementError::WaterTooDeep)
            } else {
                Ok(())
            }
        } else {
            if !desc.spawns_on_land {
                Err(PlacementError::MustBePlacedInWater)
            } else if t.elevation < desc.land_elevation_min {
                Err(PlacementError::TooLow)
            } else if t.elevation > desc.land_elevation_max {
                Err(PlacementError::TooHigh)
            } else {
                Ok(())
            }
        },
    }
}

/// The player's knowledge state exists and holds the knowledge.
pub open spec fn knows(progress: Option<PlayerProgress>, knowledge_id: i32) -> bool {
    progress matches Some(p) && acquired(p, knowledge_id)
}

/// Whether the player's knowledges allow the action: every required
/// knowledge is acquired, and not all of the blocking ones are.
pub open spec fn knowledge_verdict(
    required: Seq<i32>,
    blocking: Seq<i32>,
    progress: Option<PlayerProgress>,
    action: KnowledgeAction,
) -> Result<(), PlacementError> {
    if exists|i: int| 0 <= i < required.len() && !knows(progress, #[trigger] required[i]) {
        Err(PlacementError::MissingKnowledge(action))
    } else if blocking.len() > 0 {
        match progress {
            None => Err(PlacementError::MissingKnowledgeState),
            Some(p) => if forall|i: int| 0 <= i < blocking.len() ==> acquired(p, #[trigger] blocking[i]) {
                Err(PlacementError::NoLongerNeeded(action))
            } else {
                Ok(())
            },
        }
    } else {
        Ok(())
    }
}

/// Whether the player meets every level requirement.
pub open spec fn level_verdict(requirements: Seq<LevelRequirement>, progress: Option<PlayerProgress>) -> Result<(), PlacementError> {
    if requirements.len() == 0 {
        Ok(())
    } else {
        match progress {
            None => Err(PlacementError::NoExperienceState),
            Some(p) => if exists|i: int|
                0 <= i < requirements.len() && skill_level(p, #[trigger] requirements[i].skill_id) < requirements[i].level {
                Err(PlacementError::LevelTooLow)
            } else {
                Ok(())
            },
        }
    }
}

/// The location rules of a placement, checked in order: terrain, biome,
/// terrain fitness, paving, dimension, interior tier, claim tier, distance
/// to claims, distance to footprints.
pub open spec fn location_verdict(site: PlacementSite, recipe: PlaceablePlacementDesc, desc: PlaceableDesc) -> Result<
    (),
    PlacementError,
> {
    if site.terrain is None {
        Err(PlacementError::InvalidLocation)
    } else if !site.in_required_biome {
        Err(PlacementError::WrongBiome)
    } else if spawn_terrain_verdict(site.terrain, desc) is Err {
        spawn_terrain_verdict(site.terrain, desc)
    } else if recipe.required_paving_tier >= 0 && !(site.paving_tier matches Some(t) && t >= recipe.required_paving_tier) {
        if recipe.required_paving_tier == 0 {
            Err(PlacementError::RequiresPaving)
        } else {
            Err(PlacementError::RequiresPavingTier(recipe.required_paving_tier))
        }
    } else if site.dimension is None {
        Err(PlacementError::InvalidDimension)
    } else if recipe.required_interior_tier == -1 && site.dimension->0.interior_instance_id != 0 {
        Err(PlacementError::OverworldOnly)
    } else if recipe.required_interior_tier > 0 && (site.dimension->0.interior_instance_id == 0
        || site.dimension->0.interior_tier < recipe.required_interior_tier) {
        Err(PlacementError::RequiresInteriorTier(recipe.required_interior_tier))
    } else if recipe.required_claim_tier > 0 && site.claim is None {
        Err(PlacementError::NeedsClaim)
    } else if recipe.required_claim_tier > 0 && site.claim->0.max_tier is None {
        Err(PlacementError::ClaimMissingTechTree)
    } else if recipe.required_claim_tier > 0 && site.claim->0.max_tier->0 < recipe.required_claim_tier {
        Err(PlacementError::RequiresClaimTier(recipe.required_claim_tier))
    } else if site.in_overworld && recipe.min_distance_to_player_claims > 0 && site.claims_nearby {
        Err(PlacementError::TooCloseToClaim)
    } else if recipe.min_distance_to_existing_footprints > 0 && site.footprints_nearby {
        Err(PlacementError::TooCloseToStructure)
    } else {
        Ok(())
    }
}

/// Some owned placeable lies closer than `min_distance`.
pub open spec fn any_closer(owned: Seq<OwnedPlaceable>, min_distance: i32) -> bool {
    exists|i: int| 0 <= i < owned.len() && (#[trigger] owned[i]).distance < min_distance
}

/// The owned placeables that belong to the group, in order.
pub open spec fn group_members(owned: Seq<OwnedPlaceable>, ids: Seq<i32>) -> Seq<OwnedPlaceable>
    decreases owned.len(),
{
    if owned.len() == 0 {
        seq![]
    } else {
        let rest = group_members(owned.drop_last(), ids);
        if ids.contains(owned.last().placeable_id) {
            rest.push(owned.last())
        } else {
            rest
        }
    }
}

/// The owned placeables other than the entity.
pub open spec fn without_entity(owned: Seq<OwnedPlaceable>, entity_id: u64) -> Seq<OwnedPlaceable>
    decreases owned.len(),
{
    if owned.len() == 0 {
        seq![]
    } else {
        let rest = without_entity(owned.drop_last(), entity_id);
        if owned.last().entity_id == entity_id {
            rest
        } else {
            rest.push(owned.last())
        }
    }
}

/// The first of the members with the smallest entity id, among the first `n`.
pub open spec fn oldest_member(members: Seq<OwnedPlaceable>, n: nat) -> int
    decreases n,
{
    if n <= 1 {
        0
    } else {
        let prev = oldest_member(members, (n - 1) as nat);
        if members[n - 1].entity_id < members[prev].entity_id {
            n - 1
        } else {
            prev
        }
    }
}

/// The state of the group rules after some groups: the placeables the
/// player still owns, those despawned to make room, and the verdict so far.
pub struct GroupCheck {
    pub owned: Seq<OwnedPlaceable>,
    pub despawned: Seq<u64>,
    pub verdict: Result<(), PlacementError>,
}

/// The player owns at least the group's limit (never so for a negative limit).
pub open spec fn group_full(members: Seq<OwnedPlaceable>, limit: i32) -> bool {
    limit >= 0 && members.len() >= limit
}

/// One group's rule: when the player owns the group's limit, either fail or
/// (replacing the oldest) despawn the oldest member, unless this is a dry
/// run; then no member may lie closer than the recipe's group distance.
pub open spec fn check_group(
    state: GroupCheck,
    index: usize,
    group: PlaceableGroupDesc,
    placeable_id: i32,
    min_distance_to_group: i32,
    replace_oldest: bool,
    dry_run: bool,
) -> GroupCheck {
    if state.verdict is Err || !group.placeable_ids@.contains(placeable_id) {
        state
    } else {
        let members = group_members(state.owned, group.placeable_ids@);
        if group_full(members, group.placement_limit) && !replace_oldest {
            GroupCheck { verdict: Err(PlacementError::GroupFull(index, group.placement_limit)), ..state }
        } else {
            let after = if group_full(members, group.placement_limit) && !dry_run {
                let oldest = members[oldest_member(members, members.len())].entity_id;
                GroupCheck {
                    owned: without_entity(state.owned, oldest),
                    despawned: state.despawned.push(oldest),
                    verdict: Ok(()),
                }
            } else {
                state
            };
            if min_distance_to_group > 0 && any_closer(members, min_distance_to_group) {
                GroupCheck { verdict: Err(PlacementError::TooCloseToOwnPlaceable), ..after }
            } else {
                after
            }
        }
    }
}

/// Replacing the oldest member never meets an empty full group among the
/// first `n` groups: a group with limit 0 that the placement reaches always
/// has a member to despawn.
pub open spec fn oldest_always_exists(
    groups: Seq<PlaceableGroupDesc>,
    owned: Seq<OwnedPlaceable>,
    placeable_id: i32,
    min_distance_to_group: i32,
    replace_oldest: bool,
    dry_run: bool,
    n: nat,
) -> bool {
    forall|k: int|
        0 <= k < n ==> {
            let state = #[trigger] check_groups(groups, owned, placeable_id, min_distance_to_group, replace_oldest, dry_run, k as nat);
            (state.verdict is Ok && groups[k].placeable_ids@.contains(placeable_id) && replace_oldest && !dry_run
                && groups[k].placement_limit == 0) ==> group_members(state.owned, groups[k].placeable_ids@).len() > 0
        }
}

/// The group rules of the first `n` groups, in order.
pub open spec fn check_groups(
    groups: Seq<PlaceableGroupDesc>,
    owned: Seq<OwnedPlaceable>,
    placeable_id: i32,
    min_distance_to_group: i32,
    replace_oldest: bool,
    dry_run: bool,
    n: nat,
) -> GroupCheck
    decreases n,
{
    if n == 0 {
        GroupCheck { owned, despawned: seq![], verdict: Ok(()) }
    } else {
        check_group(
            check_groups(groups, owned, placeable_id, min_distance_to_group, replace_oldest, dry_run, (n - 1) as nat),
            (n - 1) as usize,
            groups[n - 1],
            placeable_id,
            min_distance_to_group,
            replace_oldest,
            dry_run,
        )
    }
}

/// A building of the required kinds lies in the tile's dimension within the
/// recipe's building distance.
pub open spec fn has_required_building(buildings: Seq<NearbyBuilding>, kinds: Seq<i32>, max_distance: i32) -> bool {
    exists|i: int|
        0 <= i < buildings.len() && kinds.contains((#[trigger] buildings[i]).building_description_id)
            && buildings[i].same_dimension && buildings[i].distance <= max_distance
}


/// The verdict on the placer: the knowledges for placing, then the levels.
pub open spec fn placer_verdict(recipe: PlaceablePlacementDesc, progress: Option<PlayerProgress>) -> Result<(), PlacementError> {
    let k = knowledge_verdict(recipe.required_knowledges@, recipe.blocking_knowledges@, progress, KnowledgeAction::Place);
    if k is Err {
        k
    } else {
        level_verdict(recipe.level_requirements@, progress)
    }
}

/// The verdict on the distance to the player's other placeables.
pub open spec fn other_distance_verdict(owned: Seq<OwnedPlaceable>, recipe: PlaceablePlacementDesc) -> Result<(), PlacementError> {
    if recipe.min_distance_to_other_placeables > 0 && any_closer(owned, recipe.min_distance_to_other_placeables) {
        Err(PlacementError::TooCloseToOwnPlaceable)
    } else {
        Ok(())
    }
}

/// The verdict on the buildings a placement must stand near.
pub open spec fn building_verdict(buildings: Seq<NearbyBuilding>, recipe: PlaceablePlacementDesc) -> Result<(), PlacementError> {
    if recipe.buildings@.len() > 0 && recipe.max_distance_to_buildings > 0 && !has_required_building(
        buildings,
        recipe.buildings@,
        recipe.max_distance_to_buildings,
    ) {
        Err(PlacementError::MustBeNearBuilding)
    } else {
        Ok(())
    }
}

/// The stacks an interaction yields for a damage multiplier: with a
/// positive multiplier, each output stack scaled by it, keeping those with a
/// positive quantity; nothing otherwise.
pub open spec fn scaled_output(stacks: Seq<ItemStack>, multiplier: i32, n: nat) -> Seq<ItemStack>
    decreases n,
{
    if n == 0 || multiplier <= 0 {
        seq![]
    } else {
        let prev = scaled_output(stacks, multiplier, (n - 1) as nat);
        let q = stacks[n - 1].quantity * multiplier;
        if q > 0 {
            prev.push(ItemStack { quantity: q as i32, ..stacks[n - 1] })
        } else {
            prev
        }
    }
}

/// The verdict on an interaction, checked in order.
pub open spec fn interaction_verdict(
    c: InteractionCheck,
    required: Seq<i32>,
    blocking: Seq<i32>,
    level_requirements: Seq<LevelRequirement>,
    progress: Option<PlayerProgress>,
) -> Result<InteractionPlan, InteractionError> {
    let knowledge = knowledge_verdict(required, blocking, progress, KnowledgeAction::Interact);
    if c.placeable is None {
        Err(InteractionError::PlaceableGone)
    } else if c.placeable->0.owner_entity_id != c.actor_id {
        Err(InteractionError::NoPermission)
    } else if c.recipe_placeable_id is None {
        Err(InteractionError::UnknownInteraction)
    } else if c.placeable->0.placeable_id != c.recipe_placeable_id->0 {
        Err(InteractionError::InvalidOperation)
    } else if !c.terrain_found {
        Err(InteractionError::InvalidLocation)
    } else if c.swimming_unmounted {
        Err(InteractionError::CannotInteractWhileSwimming)
    } else if !c.placeable_has_location {
        Err(InteractionError::MissingLocation)
    } else if !c.within_range {
        Err(InteractionError::TooFar)
    } else if knowledge == Err::<(), PlacementError>(PlacementError::MissingKnowledge(KnowledgeAction::Interact)) {
        Err(InteractionError::MissingKnowledge)
    } else if knowledge == Err::<(), PlacementError>(PlacementError::MissingKnowledgeState) {
        Err(InteractionError::MissingKnowledgeState)
    } else if knowledge is Err {
        Err(InteractionError::NoLongerNeeded)
    } else if c.enough_stamina is None {
        Err(InteractionError::MissingStaminaState)
    } else if c.enough_stamina == Some(false) {
        Err(InteractionError::NotEnoughStamina)
    } else if c.tool_required && !c.tool_found && !c.allow_use_hands {
        Err(InteractionError::ToolMissing)
    } else if level_requirements.len() > 0 && progress is None {
        Err(InteractionError::NoExperienceState)
    } else {
        Ok(InteractionPlan {
            uses_tool: c.tool_required && c.tool_found,
            meets_levels: level_requirements.len() == 0 || forall|i: int|
                0 <= i < level_requirements.len() ==> skill_level(progress->0, (#[trigger] level_requirements[i]).skill_id)
                    >= level_requirements[i].level,
        })
    }
}

// ---------------------------------------------------------------------------
// Executable functions
// ---------------------------------------------------------------------------

impl PlaceableState {
    /// Whether a placeable of kind `desc` may stand on terrain `terrain`:
    /// under water it must be able to spawn in water within its depth range,
    /// on land it must be able to spawn on land within its elevation range.
    pub fn validate_spawn_terrain(terrain: Option<TerrainCell>, desc: &PlaceableDesc) -> (verdict: Result<(), PlacementError>)
        ensures
            verdict == spawn_terrain_verdict(terrain, *desc),
    {
        let t = match terrain {
            Some(t) => t,
            None => return Err(PlacementError::InvalidLocation),
        };
        if t.submerged {
            if !desc.spawns_in_water {
                return Err(PlacementError::MustBePlacedOnLand);
            }
            if t.water_depth < desc.water_depth_min {
                return Err(PlacementError::WaterTooShallow);
            }
            if t.water_depth > desc.water_depth_max {
                return Err(PlacementError::WaterTooDeep);
            }
        } else {
            if !desc.spawns_on_land {
                return Err(PlacementError::MustBePlacedInWater);
            }
            if t.elevation < desc.land_elevation_min {
                return Err(PlacementError::TooLow);
            }
            if t.elevation > desc.land_elevation_max {
                return Err(PlacementError::TooHigh);
            }
        }
        Ok(())
    }

    /// Whether a placeable of kind `desc` owned by the player may be spawned on
    /// a tile: the terrain fits, no blocking footprint stands there, the owner
    /// has no placeable there yet, and outside the overworld the tile is walkable.
    pub fn is_valid_spawn_tile(
        terrain: Option<TerrainCell>,
        desc: &PlaceableDesc,
        has_blocking_footprint: bool,
        owner_has_placeable_there: bool,
        in_overworld: bool,
        interior_walkable: bool,
    ) -> (valid: bool)
        ensures
            valid == (spawn_terrain_verdict(terrain, *desc) is Ok && !has_blocking_footprint && !owner_has_placeable_there
                && (in_overworld || interior_walkable)),
    {
        if Self::validate_spawn_terrain(terrain, desc).is_err() {
            return false;
        }
        if has_blocking_footprint {
            return false;
        }
        if owner_has_placeable_there {
            return false;
        }
        if !in_overworld && !interior_walkable {
            return false;
        }
        true
    }

    /// The radius band a spawn is sampled in: the minimum is at least 0 and
    /// the maximum at least the minimum.
    pub fn normalized_radius_band(min_radius: i32, max_radius: i32) -> (band: (i32, i32))
        ensures
            band.0 == if min_radius < 0 {
                0
            } else {
                min_radius
            },
            band.1 == if max_radius < band.0 {
                band.0
            } else {
                max_radius
            },
            0 <= band.0 <= band.1,
    {
        let min_r = if min_radius < 0 {
            0
        } else {
            min_radius
        };
        let max_r = if max_radius < min_r {
            min_r
        } else {
            max_radius
        };
        (min_r, max_r)
    }
}

/// Checks the knowledges an action needs: every required knowledge must be
/// acquired; with blocking knowledges, the player's knowledge state must
/// exist and the action is refused when every blocking one is acquired.
pub fn validate_knowledges(
    required_knowledges: &Vec<i32>,
    blocking_knowledges: &Vec<i32>,
    progress: Option<&PlayerProgress>,
    action: KnowledgeAction,
) -> (verdict: Result<(), PlacementError>)
    ensures
        verdict == knowledge_verdict(required_knowledges@, blocking_knowledges@, profile_value(progress), action),
{
    for i in 0..required_knowledges.len()
        invariant
            forall|j: int| 0 <= j < i ==> knows(profile_value(progress), #[trigger] required_knowledges@[j]),
    {
        let known = match progress {
            Some(p) => p.is_acquired(required_knowledges[i]),
            None => false,
        };
        if !known {
            proof {
                assert(!knows(profile_value(progress), required_knowledges@[i as int]));
            }
            return Err(PlacementError::MissingKnowledge(action));
        }
    }
    if blocking_knowledges.len() > 0 {
        let p = match progress {
            Some(p) => p,
            None => return Err(PlacementError::MissingKnowledgeState),
        };
        let mut possess_all_knowledges = true;
        for i in 0..blocking_knowledges.len()
            invariant
                possess_all_knowledges == forall|j: int| 0 <= j < i ==> acquired(*p, #[trigger] blocking_knowledges@[j]),
        {
            let known = p.is_acquired(blocking_knowledges[i]);
            possess_all_knowledges = possess_all_knowledges && known;
        }
        if possess_all_knowledges {
            return Err(PlacementError::NoLongerNeeded(action));
        }
    }
    Ok(())
}

/// Checks the level requirements of a placement: with any, the player's
/// experience must exist and reach every required level.
pub fn validate_level_requirements(level_requirements: &Vec<LevelRequirement>, progress: Option<&PlayerProgress>) -> (verdict:
    Result<(), PlacementError>)
    ensures
        verdict == level_verdict(level_requirements@, profile_value(progress)),
{
    if level_requirements.len() == 0 {
        return Ok(());
    }
    let p = match progress {
        Some(p) => p,
        None => return Err(PlacementError::NoExperienceState),
    };
    for i in 0..level_requirements.len()
        invariant
            level_requirements@.len() > 0,
            profile_value(progress) == Some(*p),
            forall|j: int|
                0 <= j < i ==> skill_level(*p, (#[trigger] level_requirements@[j]).skill_id) >= level_requirements@[j].level,
    {
        let requirement = level_requirements[i];
        if p.get_level(requirement.skill_id) < requirement.level {
            proof {
                assert(skill_level(*p, level_requirements@[i as int].skill_id) < level_requirements@[i as int].level);
            }
            return Err(PlacementError::LevelTooLow);
        }
    }
    Ok(())
}

/// Checks the location rules of a placement, in order.
pub fn validate_location_rules(site: &PlacementSite, recipe: &PlaceablePlacementDesc, desc: &PlaceableDesc) -> (verdict: Result<
    (),
    PlacementError,
>)
    ensures
        verdict == location_verdict(*site, *recipe, *desc),
{
    if site.terrain.is_none() {
        return Err(PlacementError::InvalidLocation);
    }
    if !site.in_required_biome {
        return Err(PlacementError::WrongBiome);
    }
    PlaceableState::validate_spawn_terrain(site.terrain, desc)?;
    if recipe.required_paving_tier >= 0 {
        let valid = match site.paving_tier {
            Some(tier) => tier >= recipe.required_paving_tier,
            None => false,
        };
        if !valid {
            if recipe.required_paving_tier == 0 {
                return Err(PlacementError::RequiresPaving);
            }
            return Err(PlacementError::RequiresPavingTier(recipe.required_paving_tier));
        }
    }
    let dimension = match site.dimension {
        Some(d) => d,
        None => return Err(PlacementError::InvalidDimension),
    };
    if recipe.required_interior_tier == -1 && dimension.interior_instance_id != 0 {
        return Err(PlacementError::OverworldOnly);
    }
    if recipe.required_interior_tier > 0 {
        if dimension.interior_instance_id == 0 {
            return Err(PlacementError::RequiresInteriorTier(recipe.required_interior_tier));
        }
        if dimension.interior_tier < recipe.required_interior_tier {
            return Err(PlacementError::RequiresInteriorTier(recipe.required_interior_tier));
        }
    }
    if recipe.required_claim_tier > 0 {
        let claim = match site.claim {
            Some(c) => c,
            None => return Err(PlacementError::NeedsClaim),
        };
        let max_tier = match claim.max_tier {
            Some(t) => t,
            None => return Err(PlacementError::ClaimMissingTechTree),
        };
        if max_tier < recipe.required_claim_tier {
            return Err(PlacementError::RequiresClaimTier(recipe.required_claim_tier));
        }
    }
    if site.in_overworld && recipe.min_distance_to_player_claims > 0 && site.claims_nearby {
        return Err(PlacementError::TooCloseToClaim);
    }
    if recipe.min_distance_to_existing_footprints > 0 && site.footprints_nearby {
        return Err(PlacementError::TooCloseToStructure);
    }
    Ok(())
}

/// Checks that no placeable the player owns lies closer than the recipe's
/// distance to other placeables.
pub fn validate_other_placeable_distance_rules(owned: &Vec<OwnedPlaceable>, recipe: &PlaceablePlacementDesc) -> (verdict: Result<
    (),
    PlacementError,
>)
    ensures
        verdict is Err <==> (recipe.min_distance_to_other_placeables > 0 && any_closer(
            owned@,
            recipe.min_distance_to_other_placeables,
        )),
        verdict is Err ==> verdict == Err::<(), PlacementError>(PlacementError::TooCloseToOwnPlaceable),
{
    if recipe.min_distance_to_other_placeables <= 0 {
        return Ok(());
    }
    if any_owned_closer(owned, recipe.min_distance_to_other_placeables) {
        return Err(PlacementError::TooCloseToOwnPlaceable);
    }
    Ok(())
}

/// Whether some owned placeable lies closer than `min_distance`.
pub fn any_owned_closer(owned: &Vec<OwnedPlaceable>, min_distance: i32) -> (closer: bool)
    ensures
        closer == any_closer(owned@, min_distance),
{
    for i in 0..owned.len()
        invariant
            forall|j: int| 0 <= j < i ==> (#[trigger] owned@[j]).distance >= min_distance,
    {
        if owned[i].distance < min_distance {
            return true;
        }
    }
    false
}

/// Checks that, when the recipe names buildings and a positive distance, a
/// building of one of those kinds stands in the tile's dimension within it.
pub fn validate_building_distance_rules(buildings: &Vec<NearbyBuilding>, recipe: &PlaceablePlacementDesc) -> (verdict: Result<
    (),
    PlacementError,
>)
    ensures
        verdict is Err <==> (recipe.buildings@.len() > 0 && recipe.max_distance_to_buildings > 0 && !has_required_building(
            buildings@,
            recipe.buildings@,
            recipe.max_distance_to_buildings,
        )),
        verdict is Err ==> verdict == Err::<(), PlacementError>(PlacementError::MustBeNearBuilding),
{
    if recipe.buildings.len() == 0 || recipe.max_distance_to_buildings <= 0 {
        return Ok(());
    }
    for i in 0..buildings.len()
        invariant
            forall|j: int|
                0 <= j < i ==> !(recipe.buildings@.contains((#[trigger] buildings@[j]).building_description_id)
                    && buildings@[j].same_dimension && buildings@[j].distance <= recipe.max_distance_to_buildings),
    {
        let b = buildings[i];
        if contains_i32(&recipe.buildings, b.building_description_id) && b.same_dimension
            && b.distance <= recipe.max_distance_to_buildings {
            return Ok(());
        }
    }
    Err(PlacementError::MustBeNearBuilding)
}

/// The owned placeables that belong to the group, in order.
fn members_of(owned: &Vec<OwnedPlaceable>, ids: &Vec<i32>) -> (members: Vec<OwnedPlaceable>)
    ensures
        members@ == group_members(owned@, ids@),
{
    let mut members: Vec<OwnedPlaceable> = Vec::new();
    for i in 0..owned.len()
        invariant
            members@ == group_members(owned@.take(i as int), ids@),
    {
        proof {
            assert(owned@.take(i + 1).drop_last() =~= owned@.take(i as int));
        }
        if contains_i32(ids, owned[i].placeable_id) {
            members.push(owned[i]);
        }
    }
    proof {
        assert(owned@.take(owned@.len() as int) =~= owned@);
    }
    members
}

/// The owned placeables other than the entity, in order.
fn remove_entity(owned: &Vec<OwnedPlaceable>, entity_id: u64) -> (rest: Vec<OwnedPlaceable>)
    ensures
        rest@ == without_entity(owned@, entity_id),
{
    let mut rest: Vec<OwnedPlaceable> = Vec::new();
    for i in 0..owned.len()
        invariant
            rest@ == without_entity(owned@.take(i as int), entity_id),
    {
        proof {
            assert(owned@.take(i + 1).drop_last() =~= owned@.take(i as int));
        }
        if owned[i].entity_id != entity_id {
            rest.push(owned[i]);
        }
    }
    proof {
        assert(owned@.take(owned@.len() as int) =~= owned@);
    }
    rest
}

/// Index of the first member with the smallest entity id.
fn find_oldest(members: &Vec<OwnedPlaceable>) -> (i: usize)
    requires
        members@.len() > 0,
    ensures
        i == oldest_member(members@, members@.len()),
        i < members@.len(),
{
    let mut best: usize = 0;
    for k in 1..members.len()
        invariant
            members@.len() > 0,
            best == oldest_member(members@, k as nat),
            best < k,
    {
        if members[k].entity_id < members[best].entity_id {
            best = k;
        }
    }
    best
}

proof fn lemma_oldest_member_in_range(members: Seq<OwnedPlaceable>, n: nat)
    requires
        0 < n <= members.len(),
    ensures
        0 <= oldest_member(members, n) < n,
    decreases n,
{
    if n > 1 {
        lemma_oldest_member_in_range(members, (n - 1) as nat);
    }
}

/// Once a group refuses the placement, the later groups keep the refusal.
proof fn lemma_refusal_sticks(
    groups: Seq<PlaceableGroupDesc>,
    owned: Seq<OwnedPlaceable>,
    placeable_id: i32,
    min_distance_to_group: i32,
    replace_oldest: bool,
    dry_run: bool,
    n: nat,
    m: nat,
)
    requires
        n <= m,
        check_groups(groups, owned, placeable_id, min_distance_to_group, replace_oldest, dry_run, n).verdict is Err,
    ensures
        check_groups(groups, owned, placeable_id, min_distance_to_group, replace_oldest, dry_run, m).verdict
            == check_groups(groups, owned, placeable_id, min_distance_to_group, replace_oldest, dry_run, n).verdict,
    decreases m - n,
{
    if n < m {
        lemma_refusal_sticks(groups, owned, placeable_id, min_distance_to_group, replace_oldest, dry_run, n, (m - 1) as nat);
    }
}

/// Checks the group rules of a placement. For every group holding the placed
/// kind, in order: when the player owns the group's limit, the placement is
/// refused unless the oldest member is to be replaced, in which case it is
/// despawned (not in a dry run); then no member of the group may lie closer
/// than the recipe's group distance. Returns the despawned entities.
pub fn validate_group_rules(
    groups: &Vec<PlaceableGroupDesc>,
    owned: &Vec<OwnedPlaceable>,
    placeable_id: i32,
    recipe: &PlaceablePlacementDesc,
    replace_oldest_in_full_group: bool,
    dry_run: bool,
) -> (verdict: Result<Vec<u64>, PlacementError>)
    requires
        oldest_always_exists(
            groups@,
            owned@,
            placeable_id,
            recipe.min_distance_to_group,
            replace_oldest_in_full_group,
            dry_run,
            groups@.len(),
        ),
    ensures
        ({
            let result = check_groups(
                groups@,
                owned@,
                placeable_id,
                recipe.min_distance_to_group,
                replace_oldest_in_full_group,
                dry_run,
                groups@.len(),
            );
            match verdict {
                Ok(despawned) => result.verdict is Ok && despawned@ == result.despawned,
                Err(e) => result.verdict == Err::<(), PlacementError>(e),
            }
        }),
{
    let ghost spec_owned = owned@;
    let mut current: Vec<OwnedPlaceable> = Vec::new();
    for i in 0..owned.len()
        invariant
            current@ == owned@.take(i as int),
    {
        current.push(owned[i]);
        proof {
            assert(current@ =~= owned@.take(i + 1));
        }
    }
    proof {
        assert(owned@.take(owned@.len() as int) =~= owned@);
    }
    let mut despawned: Vec<u64> = Vec::new();
    for k in 0..groups.len()
        invariant
            spec_owned == owned@,
            oldest_always_exists(
                groups@,
                spec_owned,
                placeable_id,
                recipe.min_distance_to_group,
                replace_oldest_in_full_group,
                dry_run,
                groups@.len(),
            ),
            ({
                let state = check_groups(
                    groups@,
                    spec_owned,
                    placeable_id,
                    recipe.min_distance_to_group,
                    replace_oldest_in_full_group,
                    dry_run,
                    k as nat,
                );
                &&& state.verdict is Ok
                &&& state.owned == current@
                &&& state.despawned == despawned@
            }),
    {
        let group = &groups[k];
        if contains_i32(&group.placeable_ids, placeable_id) {
            let members = members_of(&current, &group.placeable_ids);
            let full = group.placement_limit >= 0 && members.len() >= group.placement_limit as usize;
            if full {
                if !replace_oldest_in_full_group {
                    proof {
                        lemma_refusal_sticks(
                            groups@,
                            spec_owned,
                            placeable_id,
                            recipe.min_distance_to_group,
                            replace_oldest_in_full_group,
                            dry_run,
                            (k + 1) as nat,
                            groups@.len(),
                        );
                    }
                    return Err(PlacementError::GroupFull(k, group.placement_limit));
                }
                if !dry_run {
                    proof {
                        let state = check_groups(
                            groups@,
                            spec_owned,
                            placeable_id,
                            recipe.min_distance_to_group,
                            replace_oldest_in_full_group,
                            dry_run,
                            k as nat,
                        );
                        assert(state.verdict is Ok);
                        assert(members@.len() > 0);
                    }
                    let oldest = find_oldest(&members);
                    let oldest_id = members[oldest].entity_id;
                    current = remove_entity(&current, oldest_id);
                    despawned.push(oldest_id);
                }
            }
            if recipe.min_distance_to_group > 0 && any_owned_closer(&members, recipe.min_distance_to_group) {
                proof {
                    lemma_refusal_sticks(
                        groups@,
                        spec_owned,
                        placeable_id,
                        recipe.min_distance_to_group,
                        replace_oldest_in_full_group,
                        dry_run,
                        (k + 1) as nat,
                        groups@.len(),
                    );
                }
                return Err(PlacementError::TooCloseToOwnPlaceable);
            }
        }
    }
    Ok(despawned)
}


/// Checks the placer of a placement: the knowledges for placing, then the
/// level requirements.
pub fn validate_placer(recipe: &PlaceablePlacementDesc, progress: Option<&PlayerProgress>) -> (verdict: Result<
    (),
    PlacementError,
>)
    ensures
        verdict == placer_verdict(*recipe, profile_value(progress)),
{
    validate_knowledges(&recipe.required_knowledges, &recipe.blocking_knowledges, progress, KnowledgeAction::Place)?;
    validate_level_requirements(&recipe.level_requirements, progress)
}

/// Checks where a placement goes, in order: the location rules, the distance
/// to the player's other placeables, the group rules (which may despawn the
/// oldest member of a full group) and the buildings it must stand near.
/// Returns the placeables despawned; on a refusal nothing is despawned.
pub fn validate_placement_site(
    site: &PlacementSite,
    recipe: &PlaceablePlacementDesc,
    desc: &PlaceableDesc,
    owned: &Vec<OwnedPlaceable>,
    groups: &Vec<PlaceableGroupDesc>,
    buildings: &Vec<NearbyBuilding>,
    replace_oldest_in_full_group: bool,
    dry_run: bool,
) -> (verdict: Result<Vec<u64>, PlacementError>)
    requires
        oldest_always_exists(
            groups@,
            owned@,
            recipe.placed_placeable_id,
            recipe.min_distance_to_group,
            replace_oldest_in_full_group,
            dry_run,
            groups@.len(),
        ),
    ensures
        ({
            let groups_result = check_groups(
                groups@,
                owned@,
                recipe.placed_placeable_id,
                recipe.min_distance_to_group,
                replace_oldest_in_full_group,
                dry_run,
                groups@.len(),
            );
            if location_verdict(*site, *recipe, *desc) is Err {
                verdict == Err::<Vec<u64>, PlacementError>(location_verdict(*site, *recipe, *desc)->Err_0)
            } else if other_distance_verdict(owned@, *recipe) is Err {
                verdict == Err::<Vec<u64>, PlacementError>(other_distance_verdict(owned@, *recipe)->Err_0)
            } else if groups_result.verdict is Err {
                verdict == Err::<Vec<u64>, PlacementError>(groups_result.verdict->Err_0)
            } else if building_verdict(buildings@, *recipe) is Err {
                verdict == Err::<Vec<u64>, PlacementError>(building_verdict(buildings@, *recipe)->Err_0)
            } else {
                verdict matches Ok(despawned) && despawned@ == groups_result.despawned
            }
        }),
{
    validate_location_rules(site, recipe, desc)?;
    validate_other_placeable_distance_rules(owned, recipe)?;
    let despawned = validate_group_rules(
        groups,
        owned,
        recipe.placed_placeable_id,
        recipe,
        replace_oldest_in_full_group,
        dry_run,
    )?;
    validate_building_distance_rules(buildings, recipe)?;
    Ok(despawned)
}

/// The stacks an interaction yields: for a positive damage multiplier, each
/// output stack with its quantity multiplied, keeping those left positive.
pub fn scale_interaction_output(stacks: &Vec<ItemStack>, damage_multiplier: i32) -> (output: Vec<ItemStack>)
    requires
        damage_multiplier > 0 ==> forall|i: int|
            0 <= i < stacks@.len() ==> i32::MIN <= (#[trigger] stacks@[i]).quantity * damage_multiplier <= i32::MAX,
    ensures
        output@ == scaled_output(stacks@, damage_multiplier, stacks@.len()),
{
    let mut output: Vec<ItemStack> = Vec::new();
    if damage_multiplier <= 0 {
        return output;
    }
    for i in 0..stacks.len()
        invariant
            damage_multiplier > 0,
            forall|j: int|
                0 <= j < stacks@.len() ==> i32::MIN <= (#[trigger] stacks@[j]).quantity * damage_multiplier <= i32::MAX,
            output@ == scaled_output(stacks@, damage_multiplier, i as nat),
    {
        let stack = stacks[i];
        let quantity = stack.quantity * damage_multiplier;
        if quantity > 0 {
            output.push(ItemStack { quantity, ..stack });
        }
    }
    output
}

/// Checks an interaction with a placeable, in order: the placeable exists
/// and is the actor's, the interaction is known and meant for its kind, the
/// player does not swim unmounted, the placeable has a location within
/// reach, the player has the knowledges, enough stamina, and the required
/// tool (or may use bare hands), and, with level requirements, an
/// experience state. Returns whether the tool is used and whether the
/// player meets the levels.
pub fn validate_interaction(
    check: &InteractionCheck,
    required_knowledges: &Vec<i32>,
    blocking_knowledges: &Vec<i32>,
    level_requirements: &Vec<LevelRequirement>,
    progress: Option<&PlayerProgress>,
) -> (verdict: Result<InteractionPlan, InteractionError>)
    ensures
        verdict == interaction_verdict(
            *check,
            required_knowledges@,
            blocking_knowledges@,
            level_requirements@,
            profile_value(progress),
        ),
{
    let placeable = match check.placeable {
        Some(p) => p,
        None => return Err(InteractionError::PlaceableGone),
    };
    if placeable.owner_entity_id != check.actor_id {
        return Err(InteractionError::NoPermission);
    }
    let recipe_placeable_id = match check.recipe_placeable_id {
        Some(id) => id,
        None => return Err(InteractionError::UnknownInteraction),
    };
    if placeable.placeable_id != recipe_placeable_id {
        return Err(InteractionError::InvalidOperation);
    }
    if !check.terrain_found {
        return Err(InteractionError::InvalidLocation);
    }
    if check.swimming_unmounted {
        return Err(InteractionError::CannotInteractWhileSwimming);
    }
    if !check.placeable_has_location {
        return Err(InteractionError::MissingLocation);
    }
    if !check.within_range {
        return Err(InteractionError::TooFar);
    }
    match validate_knowledges(required_knowledges, blocking_knowledges, progress, KnowledgeAction::Interact) {
        Ok(()) => {},
        Err(PlacementError::MissingKnowledge(_)) => return Err(InteractionError::MissingKnowledge),
        Err(PlacementError::MissingKnowledgeState) => return Err(InteractionError::MissingKnowledgeState),
        Err(_) => return Err(InteractionError::NoLongerNeeded),
    }
    match check.enough_stamina {
        None => return Err(InteractionError::MissingStaminaState),
        Some(false) => return Err(InteractionError::NotEnoughStamina),
        Some(true) => {},
    }
    if check.tool_required && !check.tool_found && !check.allow_use_hands {
        return Err(InteractionError::ToolMissing);
    }
    let meets_levels = if level_requirements.len() == 0 {
        true
    } else {
        match progress {
            None => return Err(InteractionError::NoExperienceState),
            Some(p) => meets_level_requirements(level_requirements, p),
        }
    };
    Ok(InteractionPlan { uses_tool: check.tool_required && check.tool_found, meets_levels })
}

/// Checks that the actor may interact with the placeable through the
/// interaction: the actor owns it and the interaction is one of its kind.
pub fn validate_interaction_target(
    placeable: &PlaceableState,
    actor_id: u64,
    interaction_placeable_id: i32,
) -> (verdict: Result<(), PlacementError>)
    ensures
        verdict == if placeable.owner_entity_id != actor_id {
            Err::<(), PlacementError>(PlacementError::NoPermission)
        } else if placeable.placeable_id != interaction_placeable_id {
            Err(PlacementError::InvalidOperation)
        } else {
            Ok(())
        },
{
    if placeable.owner_entity_id != actor_id {
        return Err(PlacementError::NoPermission);
    }
    if placeable.placeable_id != interaction_placeable_id {
        return Err(PlacementError::InvalidOperation);
    }
    Ok(())
}

/// Whether the player meets every level requirement of an interaction
/// (always, when it has none).
pub fn meets_level_requirements(level_requirements: &Vec<LevelRequirement>, progress: &PlayerProgress) -> (meets: bool)
    ensures
        meets == forall|i: int|
            0 <= i < level_requirements@.len() ==> skill_level(*progress, (#[trigger] level_requirements@[i]).skill_id)
                >= level_requirements@[i].level,
{
    for i in 0..level_requirements.len()
        invariant
            forall|j: int|
                0 <= j < i ==> skill_level(*progress, (#[trigger] level_requirements@[j]).skill_id) >= level_requirements@[j].level,
    {
        if progress.get_level(level_requirements[i].skill_id) < level_requirements[i].level {
            return false;
        }
    }
    true
}

// ---------------------------------------------------------------------------
// Laws
// ---------------------------------------------------------------------------

proof fn lemma_group_members_owned(owned: Seq<OwnedPlaceable>, ids: Seq<i32>)
    ensures
        forall|k: int| 0 <= k < group_members(owned, ids).len() ==> owned.contains(#[trigger] group_members(owned, ids)[k]),
    decreases owned.len(),
{
    if owned.len() > 0 {
        lemma_group_members_owned(owned.drop_last(), ids);
        let prev = group_members(owned.drop_last(), ids);
        let cur = group_members(owned, ids);
        assert forall|k: int| 0 <= k < cur.len() implies owned.contains(#[trigger] cur[k]) by {
            if k < prev.len() {
                assert(cur[k] == prev[k]);
                let w = choose|w: int| 0 <= w < owned.drop_last().len() && owned.drop_last()[w] == prev[k];
                assert(owned[w] == cur[k]);
            } else {
                assert(owned[owned.len() - 1] == cur[k]);
            }
        }
    }
}

proof fn lemma_without_entity_owned(owned: Seq<OwnedPlaceable>, entity_id: u64)
    ensures
        forall|k: int|
            0 <= k < without_entity(owned, entity_id).len() ==> owned.contains(#[trigger] without_entity(owned, entity_id)[k])
                && without_entity(owned, entity_id)[k].entity_id != entity_id,
    decreases owned.len(),
{
    if owned.len() > 0 {
        lemma_without_entity_owned(owned.drop_last(), entity_id);
        let prev = without_entity(owned.drop_last(), entity_id);
        let cur = without_entity(owned, entity_id);
        assert forall|k: int| 0 <= k < cur.len() implies owned.contains(#[trigger] cur[k]) && cur[k].entity_id != entity_id by {
            if k < prev.len() {
                assert(cur[k] == prev[k]);
                let w = choose|w: int| 0 <= w < owned.drop_last().len() && owned.drop_last()[w] == prev[k];
                assert(owned[w] == cur[k]);
            } else {
                assert(owned[owned.len() - 1] == cur[k]);
            }
        }
    }
}

/// The group rules despawn only placeables the player owned, each at most
/// once and at most one per group; the placeables the player keeps are
/// among those owned before and none of them was despawned; a dry run, or a
/// placement that does not replace the oldest member, despawns nothing.
pub proof fn law_group_rules_despawn_owned_placeables_once(

    groups: Seq<PlaceableGroupDesc>,
    owned: Seq<OwnedPlaceable>,
    placeable_id: i32,
    min_distance_to_group: i32,
    replace_oldest: bool,
    dry_run: bool,
    n: nat,
)
    requires
        n <= groups.len(),
        oldest_always_exists(groups, owned, placeable_id, min_distance_to_group, replace_oldest, dry_run, n),
    ensures
        ({
            let r = check_groups(groups, owned, placeable_id, min_distance_to_group, replace_oldest, dry_run, n);
            &&& r.despawned.no_duplicates()
            &&& r.despawned.len() <= n
            &&& forall|k: int|
                0 <= k < r.despawned.len() ==> exists|i: int| 0 <= i < owned.len() && (#[trigger] owned[i]).entity_id == #[trigger] r.despawned[k]
            &&& forall|j: int| 0 <= j < r.owned.len() ==> owned.contains(#[trigger] r.owned[j])
            &&& forall|j: int, k: int|
                0 <= j < r.owned.len() && 0 <= k < r.despawned.len() ==> (#[trigger] r.owned[j]).entity_id != #[trigger] r.despawned[k]
            &&& (dry_run || !replace_oldest) ==> r.despawned.len() == 0
        }),
    decreases n,
{
    if n > 0 {
        law_group_rules_despawn_owned_placeables_once(
            groups,
            owned,
            placeable_id,
            min_distance_to_group,
            replace_oldest,
            dry_run,
            (n - 1) as nat,
        );
        let state = check_groups(groups, owned, placeable_id, min_distance_to_group, replace_oldest, dry_run, (n - 1) as nat);
        let group = groups[n - 1];
        let r = check_groups(groups, owned, placeable_id, min_distance_to_group, replace_oldest, dry_run, n);
        if !(state.verdict is Err || !group.placeable_ids@.contains(placeable_id)) {
            let members = group_members(state.owned, group.placeable_ids@);
            if !(group_full(members, group.placement_limit) && !replace_oldest) && group_full(members, group.placement_limit)
                && !dry_run {
                assert(members.len() > 0);
                lemma_oldest_member_in_range(members, members.len());
                let oldest_index = oldest_member(members, members.len());
                let oldest = members[oldest_index].entity_id;
                lemma_group_members_owned(state.owned, group.placeable_ids@);
                assert(state.owned.contains(members[oldest_index]));
                let w = choose|w: int| 0 <= w < state.owned.len() && state.owned[w] == members[oldest_index];
                assert(owned.contains(state.owned[w]));
                lemma_without_entity_owned(state.owned, oldest);
                let rest = without_entity(state.owned, oldest);
                assert(r.owned == rest);
                assert(r.despawned == state.despawned.push(oldest));
                assert forall|j: int| 0 <= j < r.owned.len() implies owned.contains(#[trigger] r.owned[j]) by {
                    let v = choose|v: int| 0 <= v < state.owned.len() && state.owned[v] == rest[j];
                    assert(owned.contains(state.owned[v]));
                }
                assert forall|k: int| 0 <= k < r.despawned.len() implies exists|i: int|
                    0 <= i < owned.len() && (#[trigger] owned[i]).entity_id == #[trigger] r.despawned[k] by {
                    if k == r.despawned.len() - 1 {
                        let i = choose|i: int| 0 <= i < owned.len() && owned[i] == state.owned[w];
                        assert(owned[i].entity_id == r.despawned[k]);
                    } else {
                        assert(r.despawned[k] == state.despawned[k]);
                    }
                }
                assert forall|j: int, k: int|
                    0 <= j < r.owned.len() && 0 <= k < r.despawned.len() implies (#[trigger] r.owned[j]).entity_id
                    != #[trigger] r.despawned[k] by {
                    if k < state.despawned.len() {
                        let v = choose|v: int| 0 <= v < state.owned.len() && state.owned[v] == rest[j];
                        assert(state.owned[v].entity_id != state.despawned[k]);
                        assert(r.despawned[k] == state.despawned[k]);
                    }
                }
                assert forall|a: int, b: int| 0 <= a < b < r.despawned.len() implies r.despawned[a] != r.despawned[b] by {
                    if b == r.despawned.len() - 1 {
                        assert(state.owned[w].entity_id != state.despawned[a]);
                    } else {
                        assert(state.despawned[a] != state.despawned[b]);
                    }
                }
            }
        }
    }
}

/// A placement that passes the location rules stands on terrain that the
/// placeable accepts: the spawn rules would put it there too.
pub proof fn law_accepted_site_fits_terrain(site: PlacementSite, recipe: PlaceablePlacementDesc, desc: PlaceableDesc)
    requires
        location_verdict(site, recipe, desc) is Ok,
    ensures
        spawn_terrain_verdict(site.terrain, desc) is Ok,
{
}

/// An accepted interaction is the owner's, on a placeable of the kind the
/// interaction is for, by a player holding every required knowledge.
pub proof fn law_accepted_interaction_is_owners(
    c: InteractionCheck,
    required: Seq<i32>,
    blocking: Seq<i32>,
    level_requirements: Seq<LevelRequirement>,
    progress: Option<PlayerProgress>,
)
    requires
        interaction_verdict(c, required, blocking, level_requirements, progress) is Ok,
    ensures
        c.placeable matches Some(p) && p.owner_entity_id == c.actor_id && c.recipe_placeable_id == Some(p.placeable_id),
        forall|i: int| 0 <= i < required.len() ==> knows(progress, #[trigger] required[i]),
{
    let k = knowledge_verdict(required, blocking, progress, KnowledgeAction::Interact);
    assert(k is Ok);
}

proof fn lemma_oldest_member_is_smallest(members: Seq<OwnedPlaceable>, n: nat)
    requires
        0 < n <= members.len(),
    ensures
        0 <= oldest_member(members, n) < n,
        forall|j: int| 0 <= j < n ==> members[oldest_member(members, n)].entity_id <= (#[trigger] members[j]).entity_id,
    decreases n,
{
    if n > 1 {
        lemma_oldest_member_is_smallest(members, (n - 1) as nat);
    }
}

proof fn lemma_group_members_are_owned_members(owned: Seq<OwnedPlaceable>, ids: Seq<i32>)
    ensures
        forall|m: OwnedPlaceable| #[trigger] group_members(owned, ids).contains(m) <==> (owned.contains(m) && ids.contains(
            m.placeable_id,
        )),
    decreases owned.len(),
{
    if owned.len() > 0 {
        let init = owned.drop_last();
        lemma_group_members_are_owned_members(init, ids);
        let rest = group_members(init, ids);
        let all = group_members(owned, ids);
        let last = owned.last();
        assert(owned =~= init.push(last));
        assert forall|m: OwnedPlaceable| #[trigger] all.contains(m) <==> (owned.contains(m) && ids.contains(m.placeable_id)) by {
            if ids.contains(last.placeable_id) {
                assert(all =~= rest.push(last));
                if all.contains(m) {
                    let k = choose|k: int| 0 <= k < all.len() && all[k] == m;
                    if k < rest.len() {
                        assert(rest[k] == m);
                        assert(rest.contains(m));
                        let i = choose|i: int| 0 <= i < init.len() && init[i] == m;
                        assert(owned[i] == m);
                    } else {
                        assert(owned[owned.len() - 1] == m);
                    }
                }
                if owned.contains(m) && ids.contains(m.placeable_id) {
                    let i = choose|i: int| 0 <= i < owned.len() && owned[i] == m;
                    if i < init.len() {
                        assert(init[i] == m);
                        assert(init.contains(m));
                        assert(rest.contains(m));
                        let k = choose|k: int| 0 <= k < rest.len() && rest[k] == m;
                        assert(all[k] == m);
                    } else {
                        assert(all[rest.len() as int] == m);
                    }
                }
            } else {
                assert(all == rest);
                if all.contains(m) {
                    let i = choose|i: int| 0 <= i < init.len() && init[i] == m;
                    assert(owned[i] == m);
                }
                if owned.contains(m) && ids.contains(m.placeable_id) {
                    let i = choose|i: int| 0 <= i < owned.len() && owned[i] == m;
                    if i < init.len() {
                        assert(init[i] == m);
                        assert(init.contains(m));
                        assert(rest.contains(m));
                    }
                }
            }
        }
    } else {
        assert(group_members(owned, ids) =~= Seq::<OwnedPlaceable>::empty());
    }
}

/// When a full group makes room by despawning one of the player's
/// placeables, the one despawned is the oldest: a placeable of the group that
/// the player owns, with the smallest entity id among all the player's
/// placeables of the group.
pub proof fn law_replaced_member_is_the_oldest(
    state: GroupCheck,
    index: usize,
    group: PlaceableGroupDesc,
    placeable_id: i32,
    min_distance_to_group: i32,
    replace_oldest: bool,
    dry_run: bool,
)
    requires
        exists|i: int| 0 <= i < state.owned.len() && group.placeable_ids@.contains(#[trigger] state.owned[i].placeable_id),
        check_group(state, index, group, placeable_id, min_distance_to_group, replace_oldest, dry_run).despawned.len()
            > state.despawned.len(),
    ensures
        ({
            let after = check_group(state, index, group, placeable_id, min_distance_to_group, replace_oldest, dry_run);
            let d = after.despawned.last();
            &&& exists|i: int|
                0 <= i < state.owned.len() && (#[trigger] state.owned[i]).entity_id == d && group.placeable_ids@.contains(
                    state.owned[i].placeable_id,
                )
            &&& forall|j: int|
                0 <= j < state.owned.len() && group.placeable_ids@.contains(#[trigger] state.owned[j].placeable_id) ==> d
                    <= state.owned[j].entity_id
        }),
{
    let ids = group.placeable_ids@;
    let members = group_members(state.owned, ids);
    lemma_group_members_are_owned_members(state.owned, ids);
    let w = choose|i: int| 0 <= i < state.owned.len() && ids.contains(#[trigger] state.owned[i].placeable_id);
    assert(state.owned.contains(state.owned[w]));
    assert(members.contains(state.owned[w]));
    lemma_oldest_member_is_smallest(members, members.len());
    let o = oldest_member(members, members.len());
    let after = check_group(state, index, group, placeable_id, min_distance_to_group, replace_oldest, dry_run);
    assert(after.despawned == state.despawned.push(members[o].entity_id));
    assert(members.contains(members[o]));
    let io = choose|i: int| 0 <= i < state.owned.len() && state.owned[i] == members[o];
    assert(state.owned[io].entity_id == after.despawned.last());
    assert forall|j: int|
        0 <= j < state.owned.len() && ids.contains(#[trigger] state.owned[j].placeable_id) implies after.despawned.last()
            <= state.owned[j].entity_id by {
        assert(state.owned.contains(state.owned[j]));
        assert(members.contains(state.owned[j]));
        let k = choose|k: int| 0 <= k < members.len() && members[k] == state.owned[j];
        assert(members[o].entity_id <= members[k].entity_id);
    }
}

} // verus!
