//! Restoring a resource spawn (an admin command) of a building or of an
//! interior: the checks, the spawn points, and the resources replaced there.
use vstd::prelude::*;

verus! {

/// A small tile: offset coordinates and dimension.
#[derive(Clone, Copy, Debug, PartialEq, Eq, Structural)]
pub struct TileCoord {
    pub x: i32,
    pub z: i32,
    pub dimension: u32,
}

/// An entity with a location, and whether it is a resource.
#[derive(Clone, Copy, Debug, PartialEq, Eq)]
pub struct LocatedEntity {
    pub entity_id: u64,
    pub coordinates: TileCoord,
    pub is_resource: bool,
}

/// What the command reads of a building's spawn description.
#[derive(Clone, Debug)]
pub struct BuildingSpawnInfo {
    pub is_resource_spawn: bool,
    pub spawn_ids: Vec<i32>,
}

/// A live interior: its dimension, its network, and the interior it instantiates.
#[derive(Clone, Copy, Debug, PartialEq, Eq)]
pub struct DimensionDescription {
    pub dimension_id: u32,
    pub dimension_network_entity_id: u64,
    pub interior_instance_id: i32,
}

/// What restoring an interior spawn does in one live interior: the
/// resources listed in `removed` are despawned first, then the spawn's full
/// resource clump is spawned again at `location` through the interior's
/// network `dimension_network_entity_id`.
#[derive(Clone, Debug)]
pub struct InteriorRestore {
    pub dimension_network_entity_id: u64,
    pub location: TileCoord,
    pub removed: Vec<u64>,
}

/// Why restoring a spawn was refused.
#[derive(Clone, Copy, Debug, PartialEq, Eq, Structural)]
pub enum RespawnError {
    Unauthorized,
    InvalidBuildingSpawnDesc,
    BuildingSpawnNotResource,
    MissingResourceId,
    InvalidResourceId,
    InvalidInteriorSpawnDesc,
    InteriorSpawnNotResource,
    InvalidInteriorInstance,
    InvalidInteriorShape,
    InvalidResourceClump,
}

impl RespawnError {
    /// The message describing the error.
    pub fn message(&self) -> (text: &'static str)
        ensures
            text == match *self {
                RespawnError::Unauthorized => "Unauthorized",
                RespawnError::InvalidBuildingSpawnDesc => "Invalid BuildingSpawnDesc",
                RespawnError::BuildingSpawnNotResource => "This recovery reducer currently supports only resource BuildingSpawnDesc records",
                RespawnError::MissingResourceId => "BuildingSpawnDesc resource spawn has no resource id",
                RespawnError::InvalidResourceId => "Invalid resource id on BuildingSpawnDesc",
                RespawnError::InvalidInteriorSpawnDesc => "Invalid InteriorSpawnDesc",
                RespawnError::InteriorSpawnNotResource => "This recovery reducer currently supports only resource InteriorSpawnDesc records",
                RespawnError::InvalidInteriorInstance => "Invalid interior instance",
                RespawnError::InvalidInteriorShape => "Invalid interior shape",
                RespawnError::InvalidResourceClump => "Invalid resource clump",
            },
    {
        match self {
            RespawnError::Unauthorized => "Unauthorized",
            RespawnError::InvalidBuildingSpawnDesc => "Invalid BuildingSpawnDesc",
            RespawnError::BuildingSpawnNotResource => "This recovery reducer currently supports only resource BuildingSpawnDesc records",
            RespawnError::MissingResourceId => "BuildingSpawnDesc resource spawn has no resource id",
            RespawnError::InvalidResourceId => "Invalid resource id on BuildingSpawnDesc",
            RespawnError::InvalidInteriorSpawnDesc => "Invalid InteriorSpawnDesc",
            RespawnError::InteriorSpawnNotResource => "This recovery reducer currently supports only resource InteriorSpawnDesc records",
            RespawnError::InvalidInteriorInstance => "Invalid interior instance",
            RespawnError::InvalidInteriorShape => "Invalid interior shape",
            RespawnError::InvalidResourceClump => "Invalid resource clump",
        }
    }
}

// ---------------------------------------------------------------------------
// Specifications
// ---------------------------------------------------------------------------

/// The resources among the first `n` located entities that stand on one of
/// the tiles, in order.
pub open spec fn resources_on(entities: Seq<LocatedEntity>, tiles: Seq<TileCoord>, n: nat) -> Seq<u64>
    decreases n,
{
    if n == 0 {
        seq![]
    } else {
        let prev = resources_on(entities, tiles, (n - 1) as nat);
        let e = entities[n - 1];
        if e.is_resource && tiles.contains(e.coordinates) {
            prev.push(e.entity_id)
        } else {
            prev
        }
    }
}

/// The live interiors of the interior instance among the first `n`, in order.
pub open spec fn interiors_of(dimensions: Seq<DimensionDescription>, interior_instance_id: i32, n: nat) -> Seq<
    DimensionDescription,
>
    decreases n,
{
    if n == 0 {
        seq![]
    } else {
        let prev = interiors_of(dimensions, interior_instance_id, (n - 1) as nat);
        if dimensions[n - 1].interior_instance_id == interior_instance_id {
            prev.push(dimensions[n - 1])
        } else {
            prev
        }
    }
}

// ---------------------------------------------------------------------------
// Executable functions
// ---------------------------------------------------------------------------

/// Checks a request to restore a building's resource spawn, in order: the
/// caller is an admin, the spawn description exists, it spawns a resource,
/// it names a resource (its first spawn id), and that resource is known
/// (`resource_known`). Returns the resource to spawn.
pub fn validate_building_respawn(is_admin: bool, spawn: Option<&BuildingSpawnInfo>, resource_known: bool) -> (verdict:
    Result<i32, RespawnError>)
    ensures
        verdict == if !is_admin {
            Err::<i32, RespawnError>(RespawnError::Unauthorized)
        } else if spawn is None {
            Err(RespawnError::InvalidBuildingSpawnDesc)
        } else if !spawn->0.is_resource_spawn {
            Err(RespawnError::BuildingSpawnNotResource)
        } else if spawn->0.spawn_ids@.len() == 0 {
            Err(RespawnError::MissingResourceId)
        } else if !resource_known {
            Err(RespawnError::InvalidResourceId)
        } else {
            Ok(spawn->0.spawn_ids@[0])
        },
{
    if !is_admin {
        return Err(RespawnError::Unauthorized);
    }
    let s = match spawn {
        Some(s) => s,
        None => return Err(RespawnError::InvalidBuildingSpawnDesc),
    };
    if !s.is_resource_spawn {
        return Err(RespawnError::BuildingSpawnNotResource);
    }
    if s.spawn_ids.len() == 0 {
        return Err(RespawnError::MissingResourceId);
    }
    if !resource_known {
        return Err(RespawnError::InvalidResourceId);
    }
    Ok(s.spawn_ids[0])
}

/// Checks a request to restore an interior's resource spawn, in order: the
/// caller is an admin, the spawn description exists and spawns a resource,
/// and its interior instance, the instance's shape and the resource clump
/// exist.
pub fn validate_interior_respawn(
    is_admin: bool,
    spawn_is_resource: Option<bool>,
    instance_found: bool,
    shape_found: bool,
    clump_found: bool,
) -> (verdict: Result<(), RespawnError>)
    ensures
        verdict == if !is_admin {
            Err::<(), RespawnError>(RespawnError::Unauthorized)
        } else if spawn_is_resource is None {
            Err(RespawnError::InvalidInteriorSpawnDesc)
        } else if spawn_is_resource == Some(false) {
            Err(RespawnError::InteriorSpawnNotResource)
        } else if !instance_found {
            Err(RespawnError::InvalidInteriorInstance)
        } else if !shape_found {
            Err(RespawnError::InvalidInteriorShape)
        } else if !clump_found {
            Err(RespawnError::InvalidResourceClump)
        } else {
            Ok(())
        },
{
    if !is_admin {
        return Err(RespawnError::Unauthorized);
    }
    match spawn_is_resource {
        None => return Err(RespawnError::InvalidInteriorSpawnDesc),
        Some(false) => return Err(RespawnError::InteriorSpawnNotResource),
        Some(true) => {},
    }
    if !instance_found {
        return Err(RespawnError::InvalidInteriorInstance);
    }
    if !shape_found {
        return Err(RespawnError::InvalidInteriorShape);
    }
    if !clump_found {
        return Err(RespawnError::InvalidResourceClump);
    }
    Ok(())
}

/// The live interiors of an interior instance, in table order.
pub fn live_interiors(dimensions: &Vec<DimensionDescription>, interior_instance_id: i32) -> (found: Vec<DimensionDescription>)
    ensures
        found@ == interiors_of(dimensions@, interior_instance_id, dimensions@.len()),
{
    let mut found: Vec<DimensionDescription> = Vec::new();
    for i in 0..dimensions.len()
        invariant
            found@ == interiors_of(dimensions@, interior_instance_id, i as nat),
    {
        if dimensions[i].interior_instance_id == interior_instance_id {
            found.push(dimensions[i]);
        }
    }
    found
}

/// The anchor of an interior spawn in a live interior: the spawn point
/// taken relative to the corner of the interior's shape.
pub fn interior_spawn_anchor(spawn_x: i32, spawn_z: i32, shape_min_x: i32, shape_min_z: i32, dimension_id: u32) -> (anchor:
    TileCoord)
    requires
        i32::MIN <= spawn_x - shape_min_x <= i32::MAX,
        i32::MIN <= spawn_z - shape_min_z <= i32::MAX,
    ensures
        anchor == (TileCoord { x: (spawn_x - shape_min_x) as i32, z: (spawn_z - shape_min_z) as i32, dimension: dimension_id }),
{
    TileCoord { x: spawn_x - shape_min_x, z: spawn_z - shape_min_z, dimension: dimension_id }
}

/// The tiles of a resource clump around its anchor, before rotation: the
/// anchor shifted by each offset pair (as many as both offset lists have).
pub fn clump_tiles(anchor: TileCoord, xs: &Vec<i32>, zs: &Vec<i32>) -> (tiles: Vec<TileCoord>)
    requires
        forall|i: int| 0 <= i < xs@.len() && i < zs@.len() ==> i32::MIN <= anchor.x + #[trigger] xs@[i] <= i32::MAX,
        forall|i: int| 0 <= i < xs@.len() && i < zs@.len() ==> i32::MIN <= anchor.z + #[trigger] zs@[i] <= i32::MAX,
    ensures
        tiles@.len() == if xs@.len() < zs@.len() {
            xs@.len()
        } else {
            zs@.len()
        },
        forall|i: int|
            0 <= i < tiles@.len() ==> #[trigger] tiles@[i] == (TileCoord {
                x: (anchor.x + xs@[i]) as i32,
                z: (anchor.z + zs@[i]) as i32,
                dimension: anchor.dimension,
            }),
{
    let n = if xs.len() < zs.len() {
        xs.len()
    } else {
        zs.len()
    };
    let mut tiles: Vec<TileCoord> = Vec::new();
    for i in 0..n
        invariant
            n <= xs@.len(),
            n <= zs@.len(),
            n == if xs@.len() < zs@.len() {
                xs@.len()
            } else {
                zs@.len()
            },
            forall|k: int| 0 <= k < xs@.len() && k < zs@.len() ==> i32::MIN <= anchor.x + #[trigger] xs@[k] <= i32::MAX,
            forall|k: int| 0 <= k < xs@.len() && k < zs@.len() ==> i32::MIN <= anchor.z + #[trigger] zs@[k] <= i32::MAX,
            tiles@.len() == i,
            forall|k: int|
                0 <= k < i ==> #[trigger] tiles@[k] == (TileCoord {
                    x: (anchor.x + xs@[k]) as i32,
                    z: (anchor.z + zs@[k]) as i32,
                    dimension: anchor.dimension,
                }),
    {
        tiles.push(TileCoord { x: anchor.x + xs[i], z: anchor.z + zs[i], dimension: anchor.dimension });
    }
    tiles
}

/// The resources standing on one of the tiles, in table order: those the
/// command removes before spawning the restored resource.
pub fn resources_at(entities: &Vec<LocatedEntity>, tiles: &Vec<TileCoord>) -> (found: Vec<u64>)
    ensures
        found@ == resources_on(entities@, tiles@, entities@.len()),
{
    let mut found: Vec<u64> = Vec::new();
    for i in 0..entities.len()
        invariant
            found@ == resources_on(entities@, tiles@, i as nat),
    {
        let e = entities[i];
        if e.is_resource {
            let mut on_tile = false;
            for k in 0..tiles.len()
                invariant
                    on_tile == tiles@.take(k as int).contains(e.coordinates),
            {
                proof {
                    assert(tiles@.take(k + 1) =~= tiles@.take(k as int).push(tiles@[k as int]));
                    if tiles@.take(k as int).contains(e.coordinates) {
                        let w = choose|w: int| 0 <= w < k && tiles@.take(k as int)[w] == e.coordinates;
                        assert(tiles@.take(k + 1)[w] == e.coordinates);
                    }
                    if tiles@[k as int] == e.coordinates {
                        assert(tiles@.take(k + 1)[k as int] == e.coordinates);
                    }
                }
                if tiles[k] == e.coordinates {
                    on_tile = true;
                }
            }
            proof {
                assert(tiles@.take(tiles@.len() as int) =~= tiles@);
            }
            if on_tile {
                found.push(e.entity_id);
            }
        }
    }
    found
}

/// The restores of an interior spawn, once its checks passed: none without
/// `commit`; otherwise one per live interior of the interior instance, in
/// table order. In each, the resources standing on the clump's centres are
/// removed first (`clump_centers[k]`: the clump's tiles around the anchor,
/// turned by the spawn's direction, in the `k`-th live interior), then the
/// clump is spawned again at the anchor: the spawn point taken relative to
/// the corner of the interior's shape, in that interior.
pub fn interior_restores(
    commit: bool,
    dimensions: &Vec<DimensionDescription>,
    interior_instance_id: i32,
    spawn_x: i32,
    spawn_z: i32,
    shape_min_x: i32,
    shape_min_z: i32,
    entities: &Vec<LocatedEntity>,
    clump_centers: &Vec<Vec<TileCoord>>,
) -> (restores: Vec<InteriorRestore>)
    requires
        i32::MIN <= spawn_x - shape_min_x <= i32::MAX,
        i32::MIN <= spawn_z - shape_min_z <= i32::MAX,
        clump_centers@.len() == interiors_of(dimensions@, interior_instance_id, dimensions@.len()).len(),
    ensures
        !commit ==> restores@.len() == 0,
        commit ==> ({
            let live = interiors_of(dimensions@, interior_instance_id, dimensions@.len());
            &&& restores@.len() == live.len()
            &&& forall|k: int|
                0 <= k < live.len() ==> {
                    &&& (#[trigger] restores@[k]).dimension_network_entity_id == live[k].dimension_network_entity_id
                    &&& restores@[k].location == (TileCoord {
                        x: (spawn_x - shape_min_x) as i32,
                        z: (spawn_z - shape_min_z) as i32,
                        dimension: live[k].dimension_id,
                    })
                    &&& restores@[k].removed@ == resources_on(entities@, clump_centers@[k]@, entities@.len())
                }
        }),
{
    let mut restores: Vec<InteriorRestore> = Vec::new();
    if !commit {
        return restores;
    }
    let live = live_interiors(dimensions, interior_instance_id);
    for k in 0..live.len()
        invariant
            i32::MIN <= spawn_x - shape_min_x <= i32::MAX,
            i32::MIN <= spawn_z - shape_min_z <= i32::MAX,
            clump_centers@.len() == live@.len(),
            restores@.len() == k,
            forall|k2: int|
                0 <= k2 < k ==> {
                    &&& (#[trigger] restores@[k2]).dimension_network_entity_id == live@[k2].dimension_network_entity_id
                    &&& restores@[k2].location == (TileCoord {
                        x: (spawn_x - shape_min_x) as i32,
                        z: (spawn_z - shape_min_z) as i32,
                        dimension: live@[k2].dimension_id,
                    })
                    &&& restores@[k2].removed@ == resources_on(entities@, clump_centers@[k2]@, entities@.len())
                },
    {
        let dimension = live[k];
        let location = interior_spawn_anchor(spawn_x, spawn_z, shape_min_x, shape_min_z, dimension.dimension_id);
        let removed = resources_at(entities, &clump_centers[k]);
        restores.push(InteriorRestore { dimension_network_entity_id: dimension.dimension_network_entity_id, location, removed });
    }
    restores
}

/// Every resource removed stands on one of the spawn tiles.
pub proof fn law_removed_resources_stand_on_the_spawn(entities: Seq<LocatedEntity>, tiles: Seq<TileCoord>, n: nat)
    requires
        n <= entities.len(),
    ensures
        forall|k: int|
            0 <= k < resources_on(entities, tiles, n).len() ==> exists|i: int|
                0 <= i < n && (#[trigger] entities[i]).entity_id == #[trigger] resources_on(entities, tiles, n)[k]
                    && entities[i].is_resource && tiles.contains(entities[i].coordinates),
    decreases n,
{
    if n > 0 {
        law_removed_resources_stand_on_the_spawn(entities, tiles, (n - 1) as nat);
        let prev = resources_on(entities, tiles, (n - 1) as nat);
        let cur = resources_on(entities, tiles, n);
        assert forall|k: int| 0 <= k < cur.len() implies exists|i: int|
            0 <= i < n && (#[trigger] entities[i]).entity_id == #[trigger] cur[k] && entities[i].is_resource && tiles.contains(
                entities[i].coordinates,
            ) by {
            if k < prev.len() {
                assert(cur[k] == prev[k]);
                let i = choose|i: int|
                    0 <= i < n - 1 && (#[trigger] entities[i]).entity_id == #[trigger] prev[k] && entities[i].is_resource
                        && tiles.contains(entities[i].coordinates);
                assert(entities[i].entity_id == cur[k]);
            } else {
                assert(entities[n - 1].entity_id == cur[k]);
            }
        }
    }
}

} // verus!
