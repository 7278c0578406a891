//! Expelling the players of a closed region: which neighbouring region each
//! player is sent to, which ruined waystone becomes a displaced home, and
//! which deployables are stored.
use vstd::prelude::*;

verus! {

/// How far beyond the region's edge an expelled player lands (large tiles).
pub const TELEPORT_OFFSET_FROM_REGION_EDGE: i32 = 2;

/// The building description of an NPC watchtower.
pub const WATCHTOWER_BUILDING_DESC_ID: i32 = 90_000;

/// The building description of a ruined waystone.
pub const RUINED_WAYSTONE_BUILDING_DESC_ID: i32 = 359_099_015;

/// The extent of a region in large-tile offset coordinates: `min` inclusive,
/// `max` exclusive.
#[derive(Clone, Copy, Debug, PartialEq, Eq)]
pub struct RegionBounds {
    pub min_x: i32,
    pub min_z: i32,
    pub max_x: i32,
    pub max_z: i32,
}

/// A neighbouring region a player may be sent to: the step towards it, the
/// player's distance to the shared edge, the neighbour's grid position and
/// the landing point beyond the edge.
#[derive(Clone, Copy, Debug, PartialEq, Eq)]
pub struct NeighborDestination {
    pub x_offset: i32,
    pub z_offset: i32,
    pub distance: i32,
    pub neighbor_x: u8,
    pub neighbor_z: u8,
    pub destination_x: i32,
    pub destination_z: i32,
}

/// A ruined waystone: its entity, its distance to the player's destination,
/// and whether it lies in the overworld in the destination's region.
#[derive(Clone, Copy, Debug, PartialEq, Eq)]
pub struct WaystoneCandidate {
    pub entity_id: u64,
    pub distance: i32,
    pub eligible: bool,
}

/// A deployable of an expelled player: whether it is out in the world
/// (mobile) and whether it is a siege engine.
#[derive(Clone, Copy, Debug, PartialEq, Eq)]
pub struct PlayerDeployable {
    pub entity_id: u64,
    pub owner_id: u64,
    pub mobile: bool,
    pub siege_engine: bool,
}

/// Why expelling was refused.
#[derive(Clone, Copy, Debug, PartialEq, Eq, Structural)]
pub enum ExpelError {
    Unauthorized,
    RegionStateNotFound,
    RegionControlNotFound,
    RegionStillOpen,
    NoAdjacentRegion,
}

impl ExpelError {
    /// The message describing the error.
    pub fn message(&self) -> (text: &'static str)
        ensures
            text == match *self {
                ExpelError::Unauthorized => "Unauthorized",
                ExpelError::RegionStateNotFound => "World region state not found",
                ExpelError::RegionControlNotFound => "Region control state not found",
                ExpelError::RegionStillOpen => "Close the region before running admin_expel_players",
                ExpelError::NoAdjacentRegion => "No adjacent region accepts players",
            },
    {
        match self {
            ExpelError::Unauthorized => "Unauthorized",
            ExpelError::RegionStateNotFound => "World region state not found",
            ExpelError::RegionControlNotFound => "Region control state not found",
            ExpelError::RegionStillOpen => "Close the region before running admin_expel_players",
            ExpelError::NoAdjacentRegion => "No adjacent region accepts players",
        }
    }
}

// ---------------------------------------------------------------------------
// Specifications
// ---------------------------------------------------------------------------

/// The four steps towards the neighbouring regions, in the order they are
/// tried, with the player's distance to the edge crossed.
pub open spec fn candidate(bounds: RegionBounds, x: i32, z: i32, k: int) -> (int, int, int) {
    if k == 0 {
        (-1, 0, x - bounds.min_x)
    } else if k == 1 {
        (1, 0, bounds.max_x - x)
    } else if k == 2 {
        (0, -1, z - bounds.min_z)
    } else {
        (0, 1, bounds.max_z - z)
    }
}

/// The landing coordinate along one axis: beyond the edge crossed, or the
/// player's own coordinate along the other axis.
pub open spec fn landing(offset: int, min: int, max: int, own: int) -> int {
    if offset < 0 {
        min - TELEPORT_OFFSET_FROM_REGION_EDGE
    } else if offset > 0 {
        max + TELEPORT_OFFSET_FROM_REGION_EDGE
    } else {
        own
    }
}

/// The neighbour in step `k` lies inside the grid of regions.
pub open spec fn in_grid(region_x: u8, region_z: u8, region_count_sqrt: u8, bounds: RegionBounds, x: i32, z: i32, k: int) -> bool {
    let c = candidate(bounds, x, z, k);
    let nx = region_x + c.0;
    let nz = region_z + c.1;
    0 <= nx < region_count_sqrt && 0 <= nz < region_count_sqrt
}

/// The destination for step `k`.
pub open spec fn destination_for(region_x: u8, region_z: u8, bounds: RegionBounds, x: i32, z: i32, k: int) -> NeighborDestination {
    let c = candidate(bounds, x, z, k);
    NeighborDestination {
        x_offset: c.0 as i32,
        z_offset: c.1 as i32,
        distance: c.2 as i32,
        neighbor_x: (region_x + c.0) as u8,
        neighbor_z: (region_z + c.1) as u8,
        destination_x: landing(c.0, bounds.min_x as int, bounds.max_x as int, x as int) as i32,
        destination_z: landing(c.1, bounds.min_z as int, bounds.max_z as int, z as int) as i32,
    }
}

/// The destinations of the first `n` steps whose neighbour is in the grid.
pub open spec fn destinations(
    region_x: u8,
    region_z: u8,
    region_count_sqrt: u8,
    bounds: RegionBounds,
    x: i32,
    z: i32,
    n: nat,
) -> Seq<NeighborDestination>
    decreases n,
{
    if n == 0 {
        seq![]
    } else {
        let prev = destinations(region_x, region_z, region_count_sqrt, bounds, x, z, (n - 1) as nat);
        if in_grid(region_x, region_z, region_count_sqrt, bounds, x, z, n - 1) {
            prev.push(destination_for(region_x, region_z, bounds, x, z, n - 1))
        } else {
            prev
        }
    }
}

/// The coordinates stay far enough from the ends of `i32` for every edge
/// distance and landing point to be computed.
pub open spec fn coordinates_in_range(bounds: RegionBounds, x: i32, z: i32) -> bool {
    &&& i32::MIN + TELEPORT_OFFSET_FROM_REGION_EDGE <= bounds.min_x <= bounds.max_x <= i32::MAX - TELEPORT_OFFSET_FROM_REGION_EDGE
    &&& i32::MIN + TELEPORT_OFFSET_FROM_REGION_EDGE <= bounds.min_z <= bounds.max_z <= i32::MAX - TELEPORT_OFFSET_FROM_REGION_EDGE
    &&& i32::MIN <= x - bounds.min_x <= i32::MAX
    &&& i32::MIN <= bounds.max_x - x <= i32::MAX
    &&& i32::MIN <= z - bounds.min_z <= i32::MAX
    &&& i32::MIN <= bounds.max_z - z <= i32::MAX
}

/// `k` is the first of the open options with the smallest distance.
pub open spec fn is_closest_open(distances: Seq<i32>, open: Seq<bool>, k: int) -> bool {
    &&& 0 <= k < distances.len()
    &&& open[k]
    &&& forall|j: int| 0 <= j < distances.len() && open[j] ==> distances[k] <= #[trigger] distances[j]
    &&& forall|j: int| 0 <= j < k && open[j] ==> distances[k] < #[trigger] distances[j]
}

/// The waystone ordering: by distance, then by entity id.
pub open spec fn waystone_before(a: WaystoneCandidate, b: WaystoneCandidate) -> bool {
    a.distance < b.distance || (a.distance == b.distance && a.entity_id < b.entity_id)
}

/// `k` is the first eligible waystone with the smallest (distance, entity id).
pub open spec fn is_nearest_waystone(waystones: Seq<WaystoneCandidate>, k: int) -> bool {
    &&& 0 <= k < waystones.len()
    &&& waystones[k].eligible
    &&& forall|j: int| 0 <= j < waystones.len() && (#[trigger] waystones[j]).eligible ==> !waystone_before(waystones[j], waystones[k])
    &&& forall|j: int| 0 <= j < k && (#[trigger] waystones[j]).eligible ==> waystone_before(waystones[k], waystones[j])
}

/// The deployable is stored: it is out in the world and not a siege engine.
pub open spec fn stored(d: PlayerDeployable) -> bool {
    d.mobile && !d.siege_engine
}

/// The stored deployables of one player, in table order.
pub open spec fn stored_of(deployables: Seq<PlayerDeployable>, player_id: u64, n: nat) -> Seq<u64>
    decreases n,
{
    if n == 0 {
        seq![]
    } else {
        let prev = stored_of(deployables, player_id, (n - 1) as nat);
        let d = deployables[n - 1];
        if d.owner_id == player_id && stored(d) {
            prev.push(d.entity_id)
        } else {
            prev
        }
    }
}

/// The stored deployables of the first `n` players, player by player.
pub open spec fn stored_for_players(player_ids: Seq<u64>, deployables: Seq<PlayerDeployable>, n: nat) -> Seq<u64>
    decreases n,
{
    if n == 0 {
        seq![]
    } else {
        stored_for_players(player_ids, deployables, (n - 1) as nat) + stored_of(
            deployables,
            player_ids[n - 1],
            deployables.len(),
        )
    }
}

// ---------------------------------------------------------------------------
// Executable functions
// ---------------------------------------------------------------------------

/// Checks that expelling may start, in order: the caller is an admin, the
/// region's state and control state exist, and the region is closed.
pub fn validate_expel(is_admin: bool, region_found: bool, control_allows_players: Option<bool>) -> (verdict: Result<
    (),
    ExpelError,
>)
    ensures
        verdict == if !is_admin {
            Err::<(), ExpelError>(ExpelError::Unauthorized)
        } else if !region_found {
            Err(ExpelError::RegionStateNotFound)
        } else if control_allows_players is None {
            Err(ExpelError::RegionControlNotFound)
        } else if control_allows_players == Some(true) {
            Err(ExpelError::RegionStillOpen)
        } else {
            Ok(())
        },
{
    if !is_admin {
        return Err(ExpelError::Unauthorized);
    }
    if !region_found {
        return Err(ExpelError::RegionStateNotFound);
    }
    match control_allows_players {
        None => Err(ExpelError::RegionControlNotFound),
        Some(true) => Err(ExpelError::RegionStillOpen),
        Some(false) => Ok(()),
    }
}

/// The extent of the region at grid position (`region_x`, `region_z`), in
/// large tiles: a region spans `width_chunks` chunks of `chunk_width` tiles
/// across and `height_chunks` chunks of `chunk_height` tiles down.
pub fn region_bounds(
    region_x: u8,
    region_z: u8,
    width_chunks: i32,
    height_chunks: i32,
    chunk_width: i32,
    chunk_height: i32,
) -> (bounds: RegionBounds)
    requires
        0 <= width_chunks,
        0 <= height_chunks,
        0 <= chunk_width,
        0 <= chunk_height,
        (region_x + 1) * (width_chunks * chunk_width) <= i32::MAX,
        (region_z + 1) * (height_chunks * chunk_height) <= i32::MAX,
    ensures
        bounds.min_x == region_x * (width_chunks * chunk_width),
        bounds.min_z == region_z * (height_chunks * chunk_height),
        bounds.max_x == bounds.min_x + width_chunks * chunk_width,
        bounds.max_z == bounds.min_z + height_chunks * chunk_height,
{
    let rx = region_x as i32;
    let rz = region_z as i32;
    proof {
        assert(0 <= width_chunks * chunk_width) by (nonlinear_arith)
            requires
                0 <= width_chunks,
                0 <= chunk_width,
        ;
        assert(0 <= height_chunks * chunk_height) by (nonlinear_arith)
            requires
                0 <= height_chunks,
                0 <= chunk_height,
        ;
        assert(width_chunks * chunk_width <= (region_x + 1) * (width_chunks * chunk_width)) by (nonlinear_arith)
            requires
                0 <= width_chunks * chunk_width,
                0 <= region_x,
        ;
        assert(height_chunks * chunk_height <= (region_z + 1) * (height_chunks * chunk_height)) by (nonlinear_arith)
            requires
                0 <= height_chunks * chunk_height,
                0 <= region_z,
        ;
        assert((region_x + 1) * (width_chunks * chunk_width) == region_x * (width_chunks * chunk_width) + width_chunks
            * chunk_width) by (nonlinear_arith);
        assert((region_z + 1) * (height_chunks * chunk_height) == region_z * (height_chunks * chunk_height)
            + height_chunks * chunk_height) by (nonlinear_arith);
        assert(0 <= region_x * (width_chunks * chunk_width)) by (nonlinear_arith)
            requires
                0 <= width_chunks * chunk_width,
                0 <= region_x,
        ;
        assert(0 <= region_z * (height_chunks * chunk_height)) by (nonlinear_arith)
            requires
                0 <= height_chunks * chunk_height,
                0 <= region_z,
        ;
    }
    let width = width_chunks * chunk_width;
    let height = height_chunks * chunk_height;
    let min_x = rx * width;
    let min_z = rz * height;
    RegionBounds { min_x, min_z, max_x: min_x + width, max_z: min_z + height }
}

/// The neighbouring regions a player at large tile (`x`, `z`) may be sent
/// to, in the order west, east, north, south, leaving out those beyond the
/// grid of regions: for each, the step, the distance to the edge crossed, the
/// neighbour's grid position and the landing point two tiles past the edge.
pub fn neighbor_destinations(
    region_x: u8,
    region_z: u8,
    region_count_sqrt: u8,
    bounds: RegionBounds,
    x: i32,
    z: i32,
) -> (found: Vec<NeighborDestination>)
    requires
        coordinates_in_range(bounds, x, z),
    ensures
        found@ == destinations(region_x, region_z, region_count_sqrt, bounds, x, z, 4),
{
    let mut found: Vec<NeighborDestination> = Vec::new();
    let mut k: usize = 0;
    while k < 4
        invariant
            k <= 4,
            coordinates_in_range(bounds, x, z),
            found@ == destinations(region_x, region_z, region_count_sqrt, bounds, x, z, k as nat),
        decreases 4 - k,
    {
        let (x_offset, z_offset, distance): (i32, i32, i32) = if k == 0 {
            (-1, 0, x - bounds.min_x)
        } else if k == 1 {
            (1, 0, bounds.max_x - x)
        } else if k == 2 {
            (0, -1, z - bounds.min_z)
        } else {
            (0, 1, bounds.max_z - z)
        };
        let nx: i32 = region_x as i32 + x_offset;
        let nz: i32 = region_z as i32 + z_offset;
        if nx >= 0 && nz >= 0 && nx < region_count_sqrt as i32 && nz < region_count_sqrt as i32 {
            let destination_x = if x_offset < 0 {
                bounds.min_x - TELEPORT_OFFSET_FROM_REGION_EDGE
            } else if x_offset > 0 {
                bounds.max_x + TELEPORT_OFFSET_FROM_REGION_EDGE
            } else {
                x
            };
            let destination_z = if z_offset < 0 {
                bounds.min_z - TELEPORT_OFFSET_FROM_REGION_EDGE
            } else if z_offset > 0 {
                bounds.max_z + TELEPORT_OFFSET_FROM_REGION_EDGE
            } else {
                z
            };
            found.push(
                NeighborDestination {
                    x_offset,
                    z_offset,
                    distance,
                    neighbor_x: nx as u8,
                    neighbor_z: nz as u8,
                    destination_x,
                    destination_z,
                },
            );
        }
        k = k + 1;
    }
    found
}

/// The first of the open destinations with the smallest distance to its
/// edge, if any is open (`open[k]`: the neighbour is initialised, admits
/// players, and the landing point lies in it). Refused with
/// `NoAdjacentRegion` when no neighbour is open.
pub fn closest_open_neighbor(options: &Vec<NeighborDestination>, open: &Vec<bool>) -> (best: Result<usize, ExpelError>)
    requires
        options@.len() == open@.len(),
    ensures
        best is Err <==> forall|j: int| 0 <= j < open@.len() ==> !(#[trigger] open@[j]),
        best is Err ==> best == Err::<usize, ExpelError>(ExpelError::NoAdjacentRegion),
        best matches Ok(k) ==> is_closest_open(options@.map_values(|o: NeighborDestination| o.distance), open@, k as int),
{
    let ghost distances = options@.map_values(|o: NeighborDestination| o.distance);
    let mut best: Option<usize> = None;
    for j in 0..options.len()
        invariant
            options@.len() == open@.len(),
            distances == options@.map_values(|o: NeighborDestination| o.distance),
            best is None <==> forall|i: int| 0 <= i < j ==> !(#[trigger] open@[i]),
            best matches Some(k) ==> k < j && open@[k as int] && (forall|i: int|
                0 <= i < j && open@[i] ==> distances[k as int] <= #[trigger] distances[i]) && (forall|i: int|
                0 <= i < k && open@[i] ==> distances[k as int] < #[trigger] distances[i]),
    {
        if open[j] {
            let better = match best {
                None => true,
                Some(k) => options[j].distance < options[k].distance,
            };
            if better {
                best = Some(j);
            }
        }
    }
    match best {
        Some(k) => Ok(k),
        None => Err(ExpelError::NoAdjacentRegion),
    }
}

/// The ruined waystone that becomes a displaced player's home: among the
/// eligible ones, the nearest to the destination, the lowest entity id first.
pub fn nearest_ruined_waystone(waystones: &Vec<WaystoneCandidate>) -> (nearest: Option<usize>)
    ensures
        nearest is None <==> forall|j: int| 0 <= j < waystones@.len() ==> !(#[trigger] waystones@[j]).eligible,
        nearest matches Some(k) ==> is_nearest_waystone(waystones@, k as int),
{
    let mut best: Option<usize> = None;
    for j in 0..waystones.len()
        invariant
            best is None <==> forall|i: int| 0 <= i < j ==> !(#[trigger] waystones@[i]).eligible,
            best matches Some(k) ==> k < j && waystones@[k as int].eligible && (forall|i: int|
                0 <= i < j && (#[trigger] waystones@[i]).eligible ==> !waystone_before(waystones@[i], waystones@[k as int]))
                && (forall|i: int|
                0 <= i < k && (#[trigger] waystones@[i]).eligible ==> waystone_before(waystones@[k as int], waystones@[i])),
    {
        let w = waystones[j];
        if w.eligible {
            let better = match best {
                None => true,
                Some(k) => {
                    let b = waystones[k];
                    w.distance < b.distance || (w.distance == b.distance && w.entity_id < b.entity_id)
                },
            };
            if better {
                best = Some(j);
            }
        }
    }
    best
}

/// The deployables stored when their owners are expelled: player by player,
/// each player's deployables that are out in the world and are not siege
/// engines, in table order.
pub fn deployed_player_deployables(player_ids: &Vec<u64>, deployables: &Vec<PlayerDeployable>) -> (to_store: Vec<u64>)
    ensures
        to_store@ == stored_for_players(player_ids@, deployables@, player_ids@.len()),
{
    let mut to_store: Vec<u64> = Vec::new();
    for p in 0..player_ids.len()
        invariant
            to_store@ == stored_for_players(player_ids@, deployables@, p as nat),
    {
        let player_id = player_ids[p];
        let ghost before = to_store@;
        for d in 0..deployables.len()
            invariant
                to_store@ == before + stored_of(deployables@, player_id, d as nat),
        {
            let deployable = deployables[d];
            if deployable.owner_id == player_id && deployable.mobile && !deployable.siege_engine {
                to_store.push(deployable.entity_id);
                proof {
                    assert(before + stored_of(deployables@, player_id, d as nat).push(deployable.entity_id) =~= (before
                        + stored_of(deployables@, player_id, d as nat)).push(deployable.entity_id));
                }
            }
        }
    }
    to_store
}

// ---------------------------------------------------------------------------
// Laws
// ---------------------------------------------------------------------------

/// An expelled player always lands outside the region being closed: beyond
/// the west or east edge, or beyond the north or south edge.
pub proof fn law_landing_leaves_the_region(region_x: u8, region_z: u8, bounds: RegionBounds, x: i32, z: i32, k: int)
    requires
        0 <= k < 4,
        coordinates_in_range(bounds, x, z),
    ensures
        ({
            let d = destination_for(region_x, region_z, bounds, x, z, k);
            d.destination_x < bounds.min_x || d.destination_x >= bounds.max_x || d.destination_z < bounds.min_z
                || d.destination_z >= bounds.max_z
        }),
{
}

/// A neighbour step reaches the region beyond the one edge it crosses: west
/// or east, north or south, and its distance is the player's distance to that
/// edge (`x - min_x` west, `max_x - x` east, `z - min_z` north, `max_z - z`
/// south); the landing point lies beyond that edge, the other coordinate
/// stays the player's, and the neighbour is the adjacent region in the grid.
pub open spec fn reaches_across_its_edge(
    d: NeighborDestination,
    region_x: u8,
    region_z: u8,
    region_count_sqrt: u8,
    bounds: RegionBounds,
    x: i32,
    z: i32,
) -> bool {
    &&& ({
        ||| (d.x_offset == -1 && d.z_offset == 0 && d.distance == x - bounds.min_x && d.destination_x < bounds.min_x
            && d.destination_z == z)
        ||| (d.x_offset == 1 && d.z_offset == 0 && d.distance == bounds.max_x - x && d.destination_x > bounds.max_x
            && d.destination_z == z)
        ||| (d.x_offset == 0 && d.z_offset == -1 && d.distance == z - bounds.min_z && d.destination_z < bounds.min_z
            && d.destination_x == x)
        ||| (d.x_offset == 0 && d.z_offset == 1 && d.distance == bounds.max_z - z && d.destination_z > bounds.max_z
            && d.destination_x == x)
    })
    &&& d.neighbor_x == region_x + d.x_offset
    &&& d.neighbor_z == region_z + d.z_offset
    &&& d.neighbor_x < region_count_sqrt
    &&& d.neighbor_z < region_count_sqrt
}

proof fn lemma_destinations_cross_their_edge(
    region_x: u8,
    region_z: u8,
    region_count_sqrt: u8,
    bounds: RegionBounds,
    x: i32,
    z: i32,
    n: nat,
)
    requires
        n <= 4,
        coordinates_in_range(bounds, x, z),
    ensures
        forall|i: int|
            0 <= i < destinations(region_x, region_z, region_count_sqrt, bounds, x, z, n).len() ==> reaches_across_its_edge(
                #[trigger] destinations(region_x, region_z, region_count_sqrt, bounds, x, z, n)[i],
                region_x,
                region_z,
                region_count_sqrt,
                bounds,
                x,
                z,
            ),
    decreases n,
{
    if n > 0 {
        lemma_destinations_cross_their_edge(region_x, region_z, region_count_sqrt, bounds, x, z, (n - 1) as nat);
        let prev = destinations(region_x, region_z, region_count_sqrt, bounds, x, z, (n - 1) as nat);
        let cur = destinations(region_x, region_z, region_count_sqrt, bounds, x, z, n);
        assert forall|i: int| 0 <= i < cur.len() implies reaches_across_its_edge(
            #[trigger] cur[i],
            region_x,
            region_z,
            region_count_sqrt,
            bounds,
            x,
            z,
        ) by {
            if i < prev.len() {
                assert(cur[i] == prev[i]);
            }
        }
    }
}

/// Every neighbour a player may be sent to lies across one edge of the
/// region, at the player's distance to that edge, with the landing point
/// beyond it, and is the adjacent region in the grid.
pub proof fn law_destinations_cross_their_edge(
    region_x: u8,
    region_z: u8,
    region_count_sqrt: u8,
    bounds: RegionBounds,
    x: i32,
    z: i32,
)
    requires
        coordinates_in_range(bounds, x, z),
    ensures
        forall|i: int|
            0 <= i < destinations(region_x, region_z, region_count_sqrt, bounds, x, z, 4).len() ==> reaches_across_its_edge(
                #[trigger] destinations(region_x, region_z, region_count_sqrt, bounds, x, z, 4)[i],
                region_x,
                region_z,
                region_count_sqrt,
                bounds,
                x,
                z,
            ),
{
    lemma_destinations_cross_their_edge(region_x, region_z, region_count_sqrt, bounds, x, z, 4);
}

} // verus!
