//! What the game rules read of a player's progress: skill levels and
//! acquired knowledges.
use vstd::prelude::*;

verus! {

/// A player's level in one skill.
#[derive(Clone, Copy, Debug, PartialEq, Eq)]
pub struct SkillLevel {
    pub skill_id: i32,
    pub level: i32,
}

/// What the rules read of a player: skill levels (a skill without an
/// entry is at `base_level`) and the ids of the acquired knowledges.
#[derive(Clone, Debug)]
pub struct PlayerProgress {
    pub skill_levels: Vec<SkillLevel>,
    pub base_level: i32,
    pub acquired_knowledges: Vec<i32>,
}

/// The profile behind an optional reference.
pub open spec fn profile_value(profile: Option<&PlayerProgress>) -> Option<PlayerProgress> {
    match profile {
        Some(p) => Some(*p),
        None => None,
    }
}

/// The player's level in a skill: the first entry for it, else the base level.
pub open spec fn level_in(levels: Seq<SkillLevel>, base_level: i32, skill_id: i32, n: nat) -> i32
    decreases n,
{
    if n == 0 {
        base_level
    } else if levels[levels.len() - n].skill_id == skill_id {
        levels[levels.len() - n].level
    } else {
        level_in(levels, base_level, skill_id, (n - 1) as nat)
    }
}

pub open spec fn skill_level(profile: PlayerProgress, skill_id: i32) -> i32 {
    level_in(profile.skill_levels@, profile.base_level, skill_id, profile.skill_levels@.len())
}

pub open spec fn acquired(profile: PlayerProgress, knowledge_id: i32) -> bool {
    profile.acquired_knowledges@.contains(knowledge_id)
}

/// Whether `x` occurs in `xs`.
pub fn contains_i32(xs: &Vec<i32>, x: i32) -> (found: bool)
    ensures
        found == xs@.contains(x),
{
    for i in 0..xs.len()
        invariant
            forall|j: int| 0 <= j < i ==> xs@[j] != x,
    {
        if xs[i] == x {
            return true;
        }
    }
    false
}

impl PlayerProgress {
    /// The player's level in a skill.
    pub fn get_level(&self, skill_id: i32) -> (level: i32)
        ensures
            level == skill_level(*self, skill_id),
    {
        let n = self.skill_levels.len();
        let mut i: usize = 0;
        while i < n
            invariant
                n == self.skill_levels@.len(),
                i <= n,
                skill_level(*self, skill_id) == level_in(self.skill_levels@, self.base_level, skill_id, (n - i) as nat),
            decreases n - i,
        {
            if self.skill_levels[i].skill_id == skill_id {
                return self.skill_levels[i].level;
            }
            i = i + 1;
        }
        self.base_level
    }

    /// Whether the player has acquired the knowledge.
    pub fn is_acquired(&self, knowledge_id: i32) -> (found: bool)
        ensures
            found == acquired(*self, knowledge_id),
    {
        contains_i32(&self.acquired_knowledges, knowledge_id)
    }

    /// Whether every knowledge of `ids` is acquired.
    pub fn all_acquired(&self, ids: &Vec<i32>) -> (all: bool)
        ensures
            all == forall|i: int| 0 <= i < ids@.len() ==> acquired(*self, #[trigger] ids@[i]),
    {
        for i in 0..ids.len()
            invariant
                forall|j: int| 0 <= j < i ==> acquired(*self, #[trigger] ids@[j]),
        {
            if !self.is_acquired(ids[i]) {
                return false;
            }
        }
        true
    }

    /// Whether some knowledge of `ids` is acquired.
    pub fn any_acquired(&self, ids: &Vec<i32>) -> (any: bool)
        ensures
            any == exists|i: int| 0 <= i < ids@.len() && acquired(*self, #[trigger] ids@[i]),
    {
        for i in 0..ids.len()
            invariant
                forall|j: int| 0 <= j < i ==> !acquired(*self, #[trigger] ids@[j]),
        {
            if self.is_acquired(ids[i]) {
                return true;
            }
        }
        false
    }
}

} // verus!
