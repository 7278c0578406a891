//! Deployables that follow their owner: the checks a follow request must
//! pass before the deployable moves.
use vstd::prelude::*;

verus! {

/// The water depths a deployable's pathfinding allows.
#[derive(Clone, Copy, Debug, PartialEq, Eq)]
pub struct PathfindingDesc {
    pub min_water_depth: i32,
    pub max_water_depth: i32,
}

/// What a follow request is checked against, in the order the checks read
/// it. A field that is `None` was not found.
#[derive(Clone, Copy, Debug, PartialEq, Eq)]
pub struct FollowCheck {
    pub actor_id: u64,
    pub deployable_entity_id: u64,
    /// The deployable the actor is mounted on, if any.
    pub mounted_deployable: Option<u64>,
    pub has_origin: bool,
    pub has_destination: bool,
    /// The deployable, the player and both requested points lie in one
    /// dimension and close to each other.
    pub points_close: bool,
    /// Water depth at the requested origin, target and the deployable's own location.
    pub origin_water_depth: Option<i32>,
    pub target_water_depth: Option<i32>,
    pub deployable_water_depth: Option<i32>,
    /// The deployable's owner.
    pub owner_id: Option<u64>,
    pub description_found: bool,
    pub pathfinding: Option<PathfindingDesc>,
    /// Whether the deployable auto-follows (its collectible state).
    pub auto_follow: Option<bool>,
}

/// Why a follow request was refused.
#[derive(Clone, Copy, Debug, PartialEq, Eq, Structural)]
pub enum FollowError {
    MountedCannotFollow,
    MissingOrigin,
    MissingDestination,
    InvalidCoordinates,
    CannotGoHere,
    DeployableNotFound,
    NotOwner,
    InvalidDeployableType,
    InvalidPathfinding,
    NoCollectibleState,
    NotAutoFollow,
}

impl FollowError {
    /// The message shown to the player.
    pub fn message(&self) -> (text: &'static str)
        ensures
            text == match *self {
                FollowError::MountedCannotFollow => "~Mounted deployable cannot follow a player",
                FollowError::MissingOrigin => "~Expected origin in move request",
                FollowError::MissingDestination => "~Expected destination in move request",
                FollowError::InvalidCoordinates => "~Invalid coordinates",
                FollowError::CannotGoHere => "~You can't go here!",
                FollowError::DeployableNotFound => "~Deployable not found!",
                FollowError::NotOwner => "~You don't own that deployable",
                FollowError::InvalidDeployableType => "~Invalid deployable type",
                FollowError::InvalidPathfinding => "~Invalid deployable pathfinding info",
                FollowError::NoCollectibleState => "No deployable collectible state",
                FollowError::NotAutoFollow => "This deployable is not set to auto-follow",
            },
    {
        match self {
            FollowError::MountedCannotFollow => "~Mounted deployable cannot follow a player",
            FollowError::MissingOrigin => "~Expected origin in move request",
            FollowError::MissingDestination => "~Expected destination in move request",
            FollowError::InvalidCoordinates => "~Invalid coordinates",
            FollowError::CannotGoHere => "~You can't go here!",
            FollowError::DeployableNotFound => "~Deployable not found!",
            FollowError::NotOwner => "~You don't own that deployable",
            FollowError::InvalidDeployableType => "~Invalid deployable type",
            FollowError::InvalidPathfinding => "~Invalid deployable pathfinding info",
            FollowError::NoCollectibleState => "No deployable collectible state",
            FollowError::NotAutoFollow => "This deployable is not set to auto-follow",
        }
    }
}

/// The depth lies in the pathfinding's range.
pub open spec fn depth_allowed(depth: i32, p: PathfindingDesc) -> bool {
    p.min_water_depth <= depth <= p.max_water_depth
}

/// The verdict on a follow request, checked in order.
pub open spec fn follow_verdict(c: FollowCheck) -> Result<(), FollowError> {
    if c.mounted_deployable == Some(c.deployable_entity_id) {
        Err(FollowError::MountedCannotFollow)
    } else if !c.has_origin {
        Err(FollowError::MissingOrigin)
    } else if !c.has_destination {
        Err(FollowError::MissingDestination)
    } else if !c.points_close {
        Err(FollowError::InvalidCoordinates)
    } else if c.origin_water_depth is None || c.target_water_depth is None || c.deployable_water_depth is None {
        Err(FollowError::CannotGoHere)
    } else if c.owner_id is None {
        Err(FollowError::DeployableNotFound)
    } else if c.owner_id != Some(c.actor_id) {
        Err(FollowError::NotOwner)
    } else if !c.description_found {
        Err(FollowError::InvalidDeployableType)
    } else if c.pathfinding is None {
        Err(FollowError::InvalidPathfinding)
    } else if !(depth_allowed(c.origin_water_depth->0, c.pathfinding->0) && depth_allowed(
        c.target_water_depth->0,
        c.pathfinding->0,
    ) && depth_allowed(c.deployable_water_depth->0, c.pathfinding->0)) {
        Err(FollowError::CannotGoHere)
    } else if c.auto_follow is None {
        Err(FollowError::NoCollectibleState)
    } else if c.auto_follow == Some(false) {
        Err(FollowError::NotAutoFollow)
    } else {
        Ok(())
    }
}

/// Whether the water depth lies in the pathfinding's range.
pub fn water_depth_allowed(depth: i32, pathfinding: &PathfindingDesc) -> (allowed: bool)
    ensures
        allowed == depth_allowed(depth, *pathfinding),
{
    depth >= pathfinding.min_water_depth && depth <= pathfinding.max_water_depth
}

/// Checks a request for a deployable to follow its owner, in order: the
/// player is not mounted on it, the request names an origin and a
/// destination, the points are close together, the terrain at the origin,
/// the target and the deployable is known, the deployable exists and is the
/// player's, its type and pathfinding are known, the water depth at all
/// three points suits the pathfinding, and the deployable auto-follows.
pub fn validate_deployable_follow(check: &FollowCheck) -> (verdict: Result<(), FollowError>)
    ensures
        verdict == follow_verdict(*check),
{
    if let Some(mounted) = check.mounted_deployable {
        if mounted == check.deployable_entity_id {
            return Err(FollowError::MountedCannotFollow);
        }
    }
    if !check.has_origin {
        return Err(FollowError::MissingOrigin);
    }
    if !check.has_destination {
        return Err(FollowError::MissingDestination);
    }
    if !check.points_close {
        return Err(FollowError::InvalidCoordinates);
    }
    let (origin_depth, target_depth, deployable_depth) = match (
        check.origin_water_depth,
        check.target_water_depth,
        check.deployable_water_depth,
    ) {
        (Some(a), Some(b), Some(c)) => (a, b, c),
        _ => return Err(FollowError::CannotGoHere),
    };
    let owner = match check.owner_id {
        Some(o) => o,
        None => return Err(FollowError::DeployableNotFound),
    };
    if owner != check.actor_id {
        return Err(FollowError::NotOwner);
    }
    if !check.description_found {
        return Err(FollowError::InvalidDeployableType);
    }
    let pathfinding = match check.pathfinding {
        Some(p) => p,
        None => return Err(FollowError::InvalidPathfinding),
    };
    let origin_ok = water_depth_allowed(origin_depth, &pathfinding);
    let target_ok = water_depth_allowed(target_depth, &pathfinding);
    let deployable_ok = water_depth_allowed(deployable_depth, &pathfinding);
    if !origin_ok || !target_ok || !deployable_ok {
        return Err(FollowError::CannotGoHere);
    }
    match check.auto_follow {
        None => Err(FollowError::NoCollectibleState),
        Some(false) => Err(FollowError::NotAutoFollow),
        Some(true) => Ok(()),
    }
}

/// A follow is only accepted where the deployable can float or stand: at
/// its origin, its target and its own location.
pub proof fn law_accepted_follow_respects_water_depth(c: FollowCheck)
    requires
        follow_verdict(c) is Ok,
    ensures
        c.owner_id == Some(c.actor_id),
        c.mounted_deployable != Some(c.deployable_entity_id),
        c.pathfinding matches Some(p) && depth_allowed(c.origin_water_depth->0, p) && depth_allowed(
            c.target_water_depth->0,
            p,
        ) && depth_allowed(c.deployable_water_depth->0, p),
{
}

} // verus!
