//! Growth: which grown entities are due, what a growth step does with the
//! entity it finds, where a grown placeable may spawn, and when a growing
//! sealed chest is announced.
use vstd::prelude::*;

verus! {

/// The growth recipe of the inactive hexite sealed chest, whose growth is
/// announced to the region.
pub const INACTIVE_HEXITE_SEALED_CHEST_GROWTH_ID: i32 = 1633012503;

/// Microseconds in one minute.
pub const MICROS_PER_MINUTE: i64 = 60_000_000;

/// A growing entity and the time (in microseconds) its growth ends.
#[derive(Clone, Copy, Debug, PartialEq, Eq)]
pub struct GrowthRow {
    pub entity_id: u64,
    pub end_timestamp: i64,
}

/// What a growth step does with the entity it finds.
#[derive(Clone, Copy, Debug, PartialEq, Eq, Structural)]
pub enum GrowthStep {
    /// The entity is gone: nothing to do.
    Gone,
    /// The entity has no location: logged, nothing grows.
    MissingLocation,
    /// The growth recipe is unknown: logged, nothing grows.
    MissingRecipe,
    /// The entity grows as a resource.
    GrowResource,
    /// The entity grows as a placeable.
    GrowPlaceable,
}

/// Where a grown placeable may spawn: nowhere, on the centre tile only, or
/// on tiles sampled in a radius band.
#[derive(Clone, Copy, Debug, PartialEq, Eq, Structural)]
pub enum SpawnArea {
    Nowhere,
    Center,
    Band(i32, i32),
}

/// The due growths among the first `n`, in order.
pub open spec fn due(growths: Seq<GrowthRow>, now: i64, n: nat) -> Seq<u64>
    decreases n,
{
    if n == 0 {
        seq![]
    } else if growths[n - 1].end_timestamp < now {
        due(growths, now, (n - 1) as nat).push(growths[n - 1].entity_id)
    } else {
        due(growths, now, (n - 1) as nat)
    }
}

/// The growths whose end lies before `now`, in order: those the growth
/// agent handles on its tick.
pub fn due_growths(growths: &Vec<GrowthRow>, now: i64) -> (due_ids: Vec<u64>)
    ensures
        due_ids@ == due(growths@, now, growths@.len()),
{
    let mut due_ids: Vec<u64> = Vec::new();
    for i in 0..growths.len()
        invariant
            due_ids@ == due(growths@, now, i as nat),
    {
        if growths[i].end_timestamp < now {
            due_ids.push(growths[i].entity_id);
        }
    }
    due_ids
}

/// The growth agent's step for a due entity: a resource grows as a
/// resource, else a placeable as a placeable, provided it has a location.
pub fn growth_agent_step(is_resource: bool, is_placeable: bool, has_location: bool) -> (step: GrowthStep)
    ensures
        step == if !is_resource && !is_placeable {
            GrowthStep::Gone
        } else if !has_location {
            GrowthStep::MissingLocation
        } else if is_resource {
            GrowthStep::GrowResource
        } else {
            GrowthStep::GrowPlaceable
        },
{
    if !is_resource && !is_placeable {
        return GrowthStep::Gone;
    }
    if !has_location {
        return GrowthStep::MissingLocation;
    }
    if is_resource {
        GrowthStep::GrowResource
    } else {
        GrowthStep::GrowPlaceable
    }
}

/// The resource a grown resource turns into, if any: the recipe's grown
/// resource, when it names one (`grown_resource_id` not 0) and the chance
/// roll (`should_spawn`) came out for it.
pub fn grown_resource_target(grown_resource_id: i32, should_spawn: bool) -> (target: Option<i32>)
    ensures
        target == if grown_resource_id != 0 && should_spawn {
            Some(grown_resource_id)
        } else {
            None::<i32>
        },
{
    if grown_resource_id != 0 && should_spawn {
        Some(grown_resource_id)
    } else {
        None
    }
}

/// The step of a scheduled growth timer for a resource (`as_placeable`
/// false) or a placeable: the entity must still exist, have a location, and
/// its recipe must be known.
pub fn scheduled_growth_step(as_placeable: bool, entity_found: bool, has_location: bool, recipe_found: bool) -> (step:
    GrowthStep)
    ensures
        step == if !entity_found {
            GrowthStep::Gone
        } else if !has_location {
            GrowthStep::MissingLocation
        } else if !recipe_found {
            GrowthStep::MissingRecipe
        } else if as_placeable {
            GrowthStep::GrowPlaceable
        } else {
            GrowthStep::GrowResource
        },
{
    if !entity_found {
        GrowthStep::Gone
    } else if !has_location {
        GrowthStep::MissingLocation
    } else if !recipe_found {
        GrowthStep::MissingRecipe
    } else if as_placeable {
        GrowthStep::GrowPlaceable
    } else {
        GrowthStep::GrowResource
    }
}

/// Where a placeable of kind `placeable_id` may spawn around a centre: kind
/// 0 spawns nothing; otherwise the band is normalised (the minimum at least
/// 0, the maximum at least the minimum), and a band of radius 0 is the
/// centre tile alone.
pub fn spawn_area(placeable_id: i32, min_radius: i32, max_radius: i32) -> (area: SpawnArea)
    ensures
        ({
            let lo = if min_radius < 0 {
                0
            } else {
                min_radius
            };
            let hi = if max_radius < lo {
                lo
            } else {
                max_radius
            };
            area == if placeable_id == 0 {
                SpawnArea::Nowhere
            } else if lo == 0 && hi == 0 {
                SpawnArea::Center
            } else {
                SpawnArea::Band(lo, hi)
            }
        }),
        area matches SpawnArea::Band(lo, hi) ==> 0 <= lo <= hi && hi > 0,
{
    if placeable_id == 0 {
        return SpawnArea::Nowhere;
    }
    let lo = if min_radius < 0 {
        0
    } else {
        min_radius
    };
    let hi = if max_radius < lo {
        lo
    } else {
        max_radius
    };
    if lo == 0 && hi == 0 {
        SpawnArea::Center
    } else {
        SpawnArea::Band(lo, hi)
    }
}

/// The announcements of a growth ending at `end_timestamp` (microseconds):
/// for the sealed chest, one hour, fifteen minutes and five minutes before
/// the end, with how long is left; for other growths none.
pub fn growth_announcements(growth_id: i32, end_timestamp: i64) -> (announcements: Vec<(i64, &'static str)>)
    requires
        end_timestamp >= i64::MIN + 60 * MICROS_PER_MINUTE,
    ensures
        growth_id != INACTIVE_HEXITE_SEALED_CHEST_GROWTH_ID ==> announcements@.len() == 0,
        growth_id == INACTIVE_HEXITE_SEALED_CHEST_GROWTH_ID ==> {
            &&& announcements@.len() == 3
            &&& announcements@[0].0 == end_timestamp - 60 * MICROS_PER_MINUTE
            &&& announcements@[1].0 == end_timestamp - 15 * MICROS_PER_MINUTE
            &&& announcements@[2].0 == end_timestamp - 5 * MICROS_PER_MINUTE
            &&& announcements@[0].1@ == "1 hour"@
            &&& announcements@[1].1@ == "15 minutes"@
            &&& announcements@[2].1@ == "5 minutes"@
        },
{
    let mut announcements: Vec<(i64, &'static str)> = Vec::new();
    if growth_id != INACTIVE_HEXITE_SEALED_CHEST_GROWTH_ID {
        return announcements;
    }
    announcements.push((end_timestamp - 60 * MICROS_PER_MINUTE, "1 hour"));
    announcements.push((end_timestamp - 15 * MICROS_PER_MINUTE, "15 minutes"));
    announcements.push((end_timestamp - 5 * MICROS_PER_MINUTE, "5 minutes"));
    announcements
}

} // verus!
