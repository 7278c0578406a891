//! Traveler tasks: which tasks a traveler can offer a player, drawing a new
//! task, and replacing or rerolling the tasks a player holds.
use std::collections::HashMap;
use std::collections::HashSet;
use vstd::prelude::*;

use crate::admin::AdminError;
use crate::entities::EntityIdAllocator;
use crate::progress::{contains_i32, acquired, profile_value, skill_level, PlayerProgress};
use crate::random::random_index;
use crate::traveler_credits::{
    params_value, refresh_credits, refresh_one, spend_credits, spec_reroll_credit_cost, CreditRefresh, NpcDesc,
    TravelerTaskCreditState, TravelerTaskParameters,
};

verus! {

broadcast use vstd::std_specs::hash::group_hash_axioms;

/// A task that a player holds with a traveler.
#[derive(Clone, Copy, Debug, PartialEq, Eq)]
pub struct TravelerTaskState {
    pub entity_id: u64,
    pub player_entity_id: u64,
    pub traveler_id: i32,
    pub task_id: i32,
    pub completed: bool,
}

/// The skill level range a task is offered at.
#[derive(Clone, Copy, Debug, PartialEq, Eq)]
pub struct TaskLevelRequirement {
    pub skill_id: i32,
    pub min_level: i32,
    pub max_level: i32,
}

/// A kind of traveler task.
#[derive(Clone, Copy, Debug, PartialEq, Eq)]
pub struct TravelerTaskDesc {
    pub id: i32,
    pub level_requirement: TaskLevelRequirement,
}

/// The knowledges a task needs, and those that stop it being offered.
#[derive(Clone, Debug)]
pub struct TravelerTaskKnowledgeRequirementDesc {
    pub traveler_task_id: i32,
    pub required_knowledges: Vec<i32>,
    pub blocking_knowledges: Vec<i32>,
}

/// Why a reroll was refused.
#[derive(Clone, Copy, Debug, PartialEq, Eq, Structural)]
pub enum RerollError {
    TaskNotFound,
    NotYourTask,
    AlreadyCompleted,
    NoReplacementAvailable,
    NotEnoughCredits,
}

impl RerollError {
    /// The message shown to the player.
    pub fn message(&self) -> (text: &'static str)
        ensures
            text == match *self {
                RerollError::TaskNotFound => "The task no longer exists",
                RerollError::NotYourTask => "The task is not yours to reroll",
                RerollError::AlreadyCompleted => "The task has already been completed",
                RerollError::NoReplacementAvailable => "No replacement traveler task is available",
                RerollError::NotEnoughCredits => "You do not have enough traveler task credits to reroll the task",
            },
    {
        match self {
            RerollError::TaskNotFound => "The task no longer exists",
            RerollError::NotYourTask => "The task is not yours to reroll",
            RerollError::AlreadyCompleted => "The task has already been completed",
            RerollError::NoReplacementAvailable => "No replacement traveler task is available",
            RerollError::NotEnoughCredits => "You do not have enough traveler task credits to reroll the task",
        }
    }
}

// ---------------------------------------------------------------------------
// Specifications
// ---------------------------------------------------------------------------

/// The tasks among the first `n` of `tasks` whose skill is one of `skills`.
pub open spec fn tasks_for_skills(tasks: Seq<TravelerTaskDesc>, skills: Seq<i32>, n: nat) -> Seq<TravelerTaskDesc>
    decreases n,
{
    if n == 0 {
        seq![]
    } else {
        let prev = tasks_for_skills(tasks, skills, (n - 1) as nat);
        if skills.contains(tasks[n - 1].level_requirement.skill_id) {
            prev.push(tasks[n - 1])
        } else {
            prev
        }
    }
}

/// The tasks each traveler type offers, built from the first `n` travelers:
/// a later traveler of the same type replaces an earlier one's entry.
pub open spec fn npc_requests(npcs: Seq<NpcDesc>, tasks: Seq<TravelerTaskDesc>, n: nat) -> Map<i32, Seq<TravelerTaskDesc>>
    decreases n,
{
    if n == 0 {
        Map::empty()
    } else {
        npc_requests(npcs, tasks, (n - 1) as nat).insert(
            npcs[n - 1].npc_type,
            tasks_for_skills(tasks, npcs[n - 1].task_skill_check@, tasks.len()),
        )
    }
}

/// A map of task lists agrees with its specification.
pub open spec fn requests_agree(m: Map<i32, Vec<TravelerTaskDesc>>, s: Map<i32, Seq<TravelerTaskDesc>>) -> bool {
    &&& m.dom() == s.dom()
    &&& forall|k: i32| #[trigger] m.contains_key(k) ==> m[k]@ == s[k]
}

/// The knowledge requirement of a task: the last entry for it among the
/// first `n`.
pub open spec fn requirement_for(
    reqs: Seq<TravelerTaskKnowledgeRequirementDesc>,
    task_id: i32,
    n: nat,
) -> Option<TravelerTaskKnowledgeRequirementDesc>
    decreases n,
{
    if n == 0 {
        None
    } else if reqs[n - 1].traveler_task_id == task_id {
        Some(reqs[n - 1])
    } else {
        requirement_for(reqs, task_id, (n - 1) as nat)
    }
}

/// The player has every required knowledge and none of the blocking ones.
pub open spec fn knowledge_allows(profile: PlayerProgress, req: Option<TravelerTaskKnowledgeRequirementDesc>) -> bool {
    match req {
        Some(r) => {
            &&& (r.required_knowledges@.len() == 0 || forall|i: int|
                0 <= i < r.required_knowledges@.len() ==> acquired(profile, #[trigger] r.required_knowledges@[i]))
            &&& (r.blocking_knowledges@.len() == 0 || !exists|i: int|
                0 <= i < r.blocking_knowledges@.len() && acquired(profile, #[trigger] r.blocking_knowledges@[i]))
        },
        None => true,
    }
}

/// A task can be offered to the player: it is not excluded, the player's
/// level in its skill lies in its range, and the knowledge requirement allows it.
pub open spec fn offerable(
    task: TravelerTaskDesc,
    excluded: Set<i32>,
    profile: PlayerProgress,
    reqs: Seq<TravelerTaskKnowledgeRequirementDesc>,
) -> bool {
    let level = skill_level(profile, task.level_requirement.skill_id);
    &&& !excluded.contains(task.id)
    &&& task.level_requirement.min_level <= level <= task.level_requirement.max_level
    &&& knowledge_allows(profile, requirement_for(reqs, task.id, reqs.len()))
}

/// Ids of the offerable tasks among the first `n`, in order.
pub open spec fn task_pool(
    tasks: Seq<TravelerTaskDesc>,
    excluded: Set<i32>,
    profile: PlayerProgress,
    reqs: Seq<TravelerTaskKnowledgeRequirementDesc>,
    n: nat,
) -> Seq<i32>
    decreases n,
{
    if n == 0 {
        seq![]
    } else {
        let prev = task_pool(tasks, excluded, profile, reqs, (n - 1) as nat);
        if offerable(tasks[n - 1], excluded, profile, reqs) {
            prev.push(tasks[n - 1].id)
        } else {
            prev
        }
    }
}

/// The tasks a draw for the traveler picks from: none at all when the
/// traveler has no task list, an empty one, or the player has no profile.
pub open spec fn roll_candidates(
    requests: Map<i32, Vec<TravelerTaskDesc>>,
    traveler_id: i32,
    excluded: Set<i32>,
    profile: Option<PlayerProgress>,
    reqs: Seq<TravelerTaskKnowledgeRequirementDesc>,
) -> Seq<i32> {
    if !requests.contains_key(traveler_id) || requests[traveler_id]@.len() == 0 {
        seq![]
    } else {
        match profile {
            Some(p) => task_pool(requests[traveler_id]@, excluded, p, reqs, requests[traveler_id]@.len()),
            None => seq![],
        }
    }
}

/// The row is one of the player's tasks with the traveler, other than the
/// excluded entity.
pub open spec fn is_active_row(row: TravelerTaskState, player_entity_id: u64, traveler_id: i32, excluded_entity_id: Option<u64>) -> bool {
    &&& row.player_entity_id == player_entity_id
    &&& row.traveler_id == traveler_id
    &&& excluded_entity_id != Some(row.entity_id)
}

/// Task ids of the player's tasks with the traveler, other than the excluded entity.
pub open spec fn active_task_ids(
    tasks: Seq<TravelerTaskState>,
    player_entity_id: u64,
    traveler_id: i32,
    excluded_entity_id: Option<u64>,
) -> Set<i32> {
    Set::new(
        |id: i32|
            exists|i: int|
                0 <= i < tasks.len() && is_active_row(#[trigger] tasks[i], player_entity_id, traveler_id, excluded_entity_id)
                    && tasks[i].task_id == id,
    )
}

/// Index of the first task row with the entity id, or the number of rows.
pub open spec fn task_row_index(tasks: Seq<TravelerTaskState>, entity_id: u64, n: nat) -> int
    decreases n,
{
    if n == 0 {
        tasks.len() as int
    } else {
        let prev = task_row_index(tasks, entity_id, (n - 1) as nat);
        if prev < n - 1 {
            prev
        } else if tasks[n - 1].entity_id == entity_id {
            n - 1
        } else {
            tasks.len() as int
        }
    }
}

pub open spec fn task_index(tasks: Seq<TravelerTaskState>, entity_id: u64) -> int {
    task_row_index(tasks, entity_id, tasks.len())
}

/// The ids a replacement for the task row must avoid: the player's other
/// tasks with the traveler and the task being replaced.
pub open spec fn replacement_exclusions(
    tasks: Seq<TravelerTaskState>,
    player_entity_id: u64,
    traveler_id: i32,
    task_entity_id: u64,
    previous_task_id: i32,
) -> Set<i32> {
    active_task_ids(tasks, player_entity_id, traveler_id, Some(task_entity_id)).insert(previous_task_id)
}

// ---------------------------------------------------------------------------
// Lemmas
// ---------------------------------------------------------------------------

proof fn lemma_task_row_index(tasks: Seq<TravelerTaskState>, entity_id: u64, n: nat)
    requires
        n <= tasks.len(),
    ensures
        ({
            let i = task_row_index(tasks, entity_id, n);
            &&& (i < n ==> 0 <= i && tasks[i].entity_id == entity_id && forall|j: int|
                0 <= j < i ==> (#[trigger] tasks[j]).entity_id != entity_id)
            &&& (i >= n ==> i == tasks.len() && forall|j: int| 0 <= j < n ==> (#[trigger] tasks[j]).entity_id != entity_id)
        }),
    decreases n,
{
    if n > 0 {
        lemma_task_row_index(tasks, entity_id, (n - 1) as nat);
    }
}

proof fn lemma_task_row_index_stays(tasks: Seq<TravelerTaskState>, entity_id: u64, n: nat, m: nat)
    requires
        0 < n <= m <= tasks.len(),
        task_row_index(tasks, entity_id, (n - 1) as nat) == tasks.len(),
        tasks[n - 1].entity_id == entity_id,
    ensures
        task_row_index(tasks, entity_id, m) == n - 1,
    decreases m - n,
{
    if m > n {
        lemma_task_row_index_stays(tasks, entity_id, n, (m - 1) as nat);
    }
}

/// A task row index names the first row with the entity id, or none.
pub proof fn lemma_task_index(tasks: Seq<TravelerTaskState>, entity_id: u64)
    ensures
        ({
            let i = task_index(tasks, entity_id);
            &&& 0 <= i <= tasks.len()
            &&& (i < tasks.len() ==> tasks[i].entity_id == entity_id)
            &&& forall|j: int| 0 <= j < i ==> (#[trigger] tasks[j]).entity_id != entity_id
        }),
{
    lemma_task_row_index(tasks, entity_id, tasks.len());
}

proof fn lemma_requirement_stays(
    reqs: Seq<TravelerTaskKnowledgeRequirementDesc>,
    task_id: i32,
    n: nat,
)
    requires
        n <= reqs.len(),
        forall|j: int| n <= j < reqs.len() ==> (#[trigger] reqs[j]).traveler_task_id != task_id,
    ensures
        requirement_for(reqs, task_id, reqs.len()) == requirement_for(reqs, task_id, n),
    decreases reqs.len() - n,
{
    if n < reqs.len() {
        lemma_requirement_stays(reqs, task_id, n + 1);
    }
}

/// No id a draw can pick is excluded.
pub proof fn lemma_pool_members_offerable(
    tasks: Seq<TravelerTaskDesc>,
    excluded: Set<i32>,
    profile: PlayerProgress,
    reqs: Seq<TravelerTaskKnowledgeRequirementDesc>,
    n: nat,
)
    requires
        n <= tasks.len(),
    ensures
        forall|id: i32| #[trigger] task_pool(tasks, excluded, profile, reqs, n).contains(id) ==> !excluded.contains(id),
    decreases n,
{
    if n > 0 {
        lemma_pool_members_offerable(tasks, excluded, profile, reqs, (n - 1) as nat);
        let prev = task_pool(tasks, excluded, profile, reqs, (n - 1) as nat);
        let cur = task_pool(tasks, excluded, profile, reqs, n);
        assert forall|id: i32| #[trigger] cur.contains(id) implies !excluded.contains(id) by {
            let k = choose|k: int| 0 <= k < cur.len() && cur[k] == id;
            if k < prev.len() {
                assert(prev.contains(id));
            }
        }
    }
}

// ---------------------------------------------------------------------------
// Executable functions
// ---------------------------------------------------------------------------

/// The tasks of `tasks` whose skill is one of `skills`, in order.
pub fn tasks_with_skills(tasks: &Vec<TravelerTaskDesc>, skills: &Vec<i32>) -> (found: Vec<TravelerTaskDesc>)
    ensures
        found@ == tasks_for_skills(tasks@, skills@, tasks@.len()),
{
    let mut found: Vec<TravelerTaskDesc> = Vec::new();
    for i in 0..tasks.len()
        invariant
            found@ == tasks_for_skills(tasks@, skills@, i as nat),
    {
        let task = tasks[i];
        if contains_i32(skills, task.level_requirement.skill_id) {
            found.push(task);
        }
    }
    found
}

/// Index of the knowledge requirement of a task (the last entry for it).
pub fn find_knowledge_requirement(reqs: &Vec<TravelerTaskKnowledgeRequirementDesc>, task_id: i32) -> (found: Option<usize>)
    ensures
        match found {
            Some(i) => i < reqs@.len() && requirement_for(reqs@, task_id, reqs@.len()) == Some(reqs@[i as int]),
            None => requirement_for(reqs@, task_id, reqs@.len()) is None,
        },
{
    let mut i = reqs.len();
    while i > 0
        invariant
            i <= reqs@.len(),
            forall|j: int| i <= j < reqs@.len() ==> (#[trigger] reqs@[j]).traveler_task_id != task_id,
        decreases i,
    {
        if reqs[i - 1].traveler_task_id == task_id {
            proof {
                lemma_requirement_stays(reqs@, task_id, i as nat);
            }
            return Some(i - 1);
        }
        i = i - 1;
    }
    proof {
        lemma_requirement_stays(reqs@, task_id, 0);
    }
    None
}

/// Whether the player's knowledge allows a task with the given requirement.
fn knowledge_allows_task(profile: &PlayerProgress, reqs: &Vec<TravelerTaskKnowledgeRequirementDesc>, task_id: i32) -> (allows: bool)
    ensures
        allows == knowledge_allows(*profile, requirement_for(reqs@, task_id, reqs@.len())),
{
    match find_knowledge_requirement(reqs, task_id) {
        None => true,
        Some(i) => {
            let req = &reqs[i];
            let required_ok = req.required_knowledges.len() == 0 || profile.all_acquired(&req.required_knowledges);
            let blocking_ok = req.blocking_knowledges.len() == 0 || !profile.any_acquired(&req.blocking_knowledges);
            required_ok && blocking_ok
        },
    }
}

impl TravelerTaskState {
    /// A new, not yet completed task of the player with the traveler, with an
    /// entity id drawn from `ids`, appended to `tasks`.
    pub fn create_and_commit(
        tasks: &mut Vec<TravelerTaskState>,
        ids: &mut EntityIdAllocator,
        player_entity_id: u64,
        traveler_id: i32,
        task_id: i32,
    )
        requires
            old(ids).next_entity_id < u64::MAX,
        ensures
            final(tasks)@ == old(tasks)@.push(
                TravelerTaskState {
                    entity_id: old(ids).next_entity_id,
                    player_entity_id,
                    traveler_id,
                    task_id,
                    completed: false,
                },
            ),
            final(ids).next_entity_id == old(ids).next_entity_id + 1,
    {
        let entity_id = ids.create_entity();
        tasks.push(TravelerTaskState { entity_id, player_entity_id, traveler_id, task_id, completed: false });
    }

    /// The tasks each traveler type offers: those whose skill the traveler
    /// checks. A later traveler of the same type replaces an earlier one.
    pub fn generate_npc_requests_hashmap(npcs: &Vec<NpcDesc>, task_descs: &Vec<TravelerTaskDesc>) -> (requests: HashMap<
        i32,
        Vec<TravelerTaskDesc>,
    >)
        ensures
            requests_agree(requests@, npc_requests(npcs@, task_descs@, npcs@.len())),
    {
        let mut requests: HashMap<i32, Vec<TravelerTaskDesc>> = HashMap::new();
        for k in 0..npcs.len()
            invariant
                requests_agree(requests@, npc_requests(npcs@, task_descs@, k as nat)),
        {
            let npc_tasks = tasks_with_skills(task_descs, &npcs[k].task_skill_check);
            requests.insert(npcs[k].npc_type, npc_tasks);
            assert(requests@.dom() =~= npc_requests(npcs@, task_descs@, (k + 1) as nat).dom());
        }
        requests
    }

    /// Ids of the tasks among `available` that the player can be offered, in order.
    pub fn skill_appropriate_task_pool(
        available: &Vec<TravelerTaskDesc>,
        excluded_task_ids: &HashSet<i32>,
        profile: &PlayerProgress,
        knowledge_requirements: &Vec<TravelerTaskKnowledgeRequirementDesc>,
    ) -> (pool: Vec<i32>)
        ensures
            pool@ == task_pool(available@, excluded_task_ids@, *profile, knowledge_requirements@, available@.len()),
    {
        let mut pool: Vec<i32> = Vec::new();
        for i in 0..available.len()
            invariant
                pool@ == task_pool(available@, excluded_task_ids@, *profile, knowledge_requirements@, i as nat),
        {
            let task = available[i];
            let not_excluded = !excluded_task_ids.contains(&task.id);
            let level = profile.get_level(task.level_requirement.skill_id);
            let in_range = task.level_requirement.min_level <= level && level <= task.level_requirement.max_level;
            if not_excluded && in_range && knowledge_allows_task(profile, knowledge_requirements, task.id) {
                pool.push(task.id);
            }
        }
        pool
    }

    /// Draws a task for the traveler: uniformly among the tasks the player can
    /// be offered that are not excluded. `None` when there is none.
    pub fn roll_task_id(
        rng: &spacetimedb::StdbRng,
        traveler_id: i32,
        requests: &HashMap<i32, Vec<TravelerTaskDesc>>,
        excluded_task_ids: &HashSet<i32>,
        profile: Option<&PlayerProgress>,
        knowledge_requirements: &Vec<TravelerTaskKnowledgeRequirementDesc>,
    ) -> (task_id: Option<i32>)
        ensures
            ({
                let candidates = roll_candidates(
                    requests@,
                    traveler_id,
                    excluded_task_ids@,
                    profile_value(profile),
                    knowledge_requirements@,
                );
                &&& (task_id is Some <==> candidates.len() > 0)
                &&& (task_id matches Some(id) ==> candidates.contains(id))
            }),
    {
        let available_tasks = match requests.get(&traveler_id) {
            Some(tasks) => tasks,
            None => return None,
        };
        if available_tasks.len() == 0 {
            return None;
        }
        let player = match profile {
            Some(p) => p,
            None => return None,
        };
        let pool = Self::skill_appropriate_task_pool(available_tasks, excluded_task_ids, player, knowledge_requirements);
        if pool.len() == 0 {
            return None;
        }
        let rnd = random_index(rng, pool.len());
        Some(pool[rnd])
    }
}


/// A traveler hands out tasks: it checks at least one skill, and some
/// checked skill id is positive.
pub open spec fn hands_out_tasks(npc: NpcDesc) -> bool {
    npc.task_skill_check@.len() > 0 && exists|i: int|
        0 <= i < npc.task_skill_check@.len() && #[trigger] npc.task_skill_check@[i] > 0
}

/// The tasks a draw for the traveler picks from, over the task lists of
/// each traveler type.
pub open spec fn offered_candidates(
    requests: Map<i32, Seq<TravelerTaskDesc>>,
    traveler_id: i32,
    excluded: Set<i32>,
    profile: Option<PlayerProgress>,
    reqs: Seq<TravelerTaskKnowledgeRequirementDesc>,
) -> Seq<i32> {
    if !requests.contains_key(traveler_id) || requests[traveler_id].len() == 0 {
        seq![]
    } else {
        match profile {
            Some(p) => task_pool(requests[traveler_id], excluded, p, reqs, requests[traveler_id].len()),
            None => seq![],
        }
    }
}

/// The number of tasks per traveler the parameters ask for (none when it is
/// negative or there are no parameters).
pub open spec fn tasks_per_traveler(params: Option<TravelerTaskParameters>) -> int {
    match params {
        Some(p) => if p.traveler_tasks_per_npc < 0 {
            0
        } else {
            p.traveler_tasks_per_npc as int
        },
        None => 0,
    }
}

/// The player holds at least `max` distinct tasks with the traveler, or no
/// further task can be drawn for it.
pub open spec fn traveler_filled(
    tasks: Seq<TravelerTaskState>,
    player_entity_id: u64,
    traveler_id: i32,
    max: int,
    requests: Map<i32, Seq<TravelerTaskDesc>>,
    profile: Option<PlayerProgress>,
    reqs: Seq<TravelerTaskKnowledgeRequirementDesc>,
) -> bool {
    let held = active_task_ids(tasks, player_entity_id, traveler_id, None);
    held.len() >= max || offered_candidates(requests, traveler_id, held, profile, reqs).len() == 0
}

proof fn lemma_agreeing_candidates(
    m: Map<i32, Vec<TravelerTaskDesc>>,
    s: Map<i32, Seq<TravelerTaskDesc>>,
    traveler_id: i32,
    excluded: Set<i32>,
    profile: Option<PlayerProgress>,
    reqs: Seq<TravelerTaskKnowledgeRequirementDesc>,
)
    requires
        requests_agree(m, s),
    ensures
        roll_candidates(m, traveler_id, excluded, profile, reqs) == offered_candidates(s, traveler_id, excluded, profile, reqs),
{
    if m.contains_key(traveler_id) {
        assert(m[traveler_id]@ == s[traveler_id]);
    }
}

/// Excluding more ids never makes an empty draw non-empty.
proof fn lemma_empty_pool_stays_empty(
    tasks: Seq<TravelerTaskDesc>,
    small: Set<i32>,
    large: Set<i32>,
    profile: PlayerProgress,
    reqs: Seq<TravelerTaskKnowledgeRequirementDesc>,
    n: nat,
)
    requires
        n <= tasks.len(),
        forall|id: i32| #[trigger] small.contains(id) ==> large.contains(id),
        task_pool(tasks, small, profile, reqs, n).len() == 0,
    ensures
        task_pool(tasks, large, profile, reqs, n).len() == 0,
    decreases n,
{
    if n > 0 {
        let prev = task_pool(tasks, small, profile, reqs, (n - 1) as nat);
        if offerable(tasks[n - 1], small, profile, reqs) {
            assert(task_pool(tasks, small, profile, reqs, n) == prev.push(tasks[n - 1].id));
        }
        lemma_empty_pool_stays_empty(tasks, small, large, profile, reqs, (n - 1) as nat);
        if offerable(tasks[n - 1], large, profile, reqs) {
            assert(!small.contains(tasks[n - 1].id));
        }
    }
}

proof fn lemma_empty_draw_stays_empty(
    requests: Map<i32, Vec<TravelerTaskDesc>>,
    traveler_id: i32,
    small: Set<i32>,
    large: Set<i32>,
    profile: Option<PlayerProgress>,
    reqs: Seq<TravelerTaskKnowledgeRequirementDesc>,
)
    requires
        forall|id: i32| #[trigger] small.contains(id) ==> large.contains(id),
        roll_candidates(requests, traveler_id, small, profile, reqs).len() == 0,
    ensures
        roll_candidates(requests, traveler_id, large, profile, reqs).len() == 0,
{
    if requests.contains_key(traveler_id) && requests[traveler_id]@.len() > 0 {
        if let Some(p) = profile {
            let t = requests[traveler_id]@;
            lemma_empty_pool_stays_empty(t, small, large, p, reqs, t.len());
        }
    }
}

/// Ids the player holds with the traveler in the table before or after.
pub open spec fn held_before_or_after(
    before: Seq<TravelerTaskState>,
    after: Seq<TravelerTaskState>,
    player_entity_id: u64,
    traveler_id: i32,
) -> Set<i32> {
    active_task_ids(before, player_entity_id, traveler_id, None).union(
        active_task_ids(after, player_entity_id, traveler_id, None),
    )
}

proof fn lemma_held_grows(
    original: Seq<TravelerTaskState>,
    before: Seq<TravelerTaskState>,
    after: Seq<TravelerTaskState>,
    player_entity_id: u64,
    traveler_id: i32,
    k0: int,
    id: i32,
)
    requires
        0 <= k0 < before.len(),
        k0 < original.len(),
        before[k0] == original[k0],
        after == before || after == with_new_task(before, k0, id),
    ensures
        forall|x: i32|
            #[trigger] held_before_or_after(original, before, player_entity_id, traveler_id).contains(x)
                ==> held_before_or_after(original, after, player_entity_id, traveler_id).contains(x),
{
    let a_orig = active_task_ids(original, player_entity_id, traveler_id, None);
    let a_before = active_task_ids(before, player_entity_id, traveler_id, None);
    let a_after = active_task_ids(after, player_entity_id, traveler_id, None);
    assert forall|x: i32| a_before.contains(x) implies a_orig.contains(x) || a_after.contains(x) by {
        let i = choose|i: int|
            0 <= i < before.len() && is_active_row(#[trigger] before[i], player_entity_id, traveler_id, None)
                && before[i].task_id == x;
        if after != before && i == k0 {
            assert(original[k0] == before[k0]);
        } else {
            assert(after[i] == before[i]);
        }
    }
}

proof fn lemma_exclusions_held(
    original: Seq<TravelerTaskState>,
    before: Seq<TravelerTaskState>,
    player_entity_id: u64,
    traveler_id: i32,
    task_entity_id: u64,
    k0: int,
)
    requires
        0 <= k0 < original.len(),
        is_active_row(original[k0], player_entity_id, traveler_id, None),
    ensures
        forall|x: i32|
            #[trigger] replacement_exclusions(before, player_entity_id, traveler_id, task_entity_id, original[k0].task_id).contains(x)
                ==> held_before_or_after(original, before, player_entity_id, traveler_id).contains(x),
{
    let a_orig = active_task_ids(original, player_entity_id, traveler_id, None);
    let a_before = active_task_ids(before, player_entity_id, traveler_id, None);
    let others = active_task_ids(before, player_entity_id, traveler_id, Some(task_entity_id));
    assert(a_orig.contains(original[k0].task_id));
    assert forall|x: i32| others.contains(x) implies a_before.contains(x) by {
        let i = choose|i: int|
            0 <= i < before.len() && is_active_row(#[trigger] before[i], player_entity_id, traveler_id, Some(task_entity_id))
                && before[i].task_id == x;
        assert(is_active_row(before[i], player_entity_id, traveler_id, None));
    }
}

/// No two task rows share an entity id.
pub open spec fn unique_task_entities(tasks: Seq<TravelerTaskState>) -> bool {
    forall|i: int, j: int|
        0 <= i < tasks.len() && 0 <= j < tasks.len() && i != j ==> (#[trigger] tasks[i]).entity_id != (
        #[trigger] tasks[j]).entity_id
}

/// `after` is the task row `before` given a new task that is not completed.
pub open spec fn reassigned(before: TravelerTaskState, after: TravelerTaskState) -> bool {
    after == TravelerTaskState { task_id: after.task_id, completed: false, ..before }
}

/// The task table after the row at `i` got the new task `task_id`.
pub open spec fn with_new_task(tasks: Seq<TravelerTaskState>, i: int, task_id: i32) -> Seq<TravelerTaskState> {
    tasks.update(i, TravelerTaskState { task_id, completed: false, ..tasks[i] })
}

/// Credits after a replacement that costs `cost`: untouched when it is free.
pub open spec fn credits_after(
    credits: Seq<TravelerTaskCreditState>,
    player_entity_id: u64,
    traveler_id: i32,
    cost: u32,
) -> Option<Seq<TravelerTaskCreditState>> {
    if cost > 0 {
        spend_credits(credits, player_entity_id, traveler_id, cost)
    } else {
        Some(credits)
    }
}

proof fn lemma_active_push(
    tasks: Seq<TravelerTaskState>,
    row: TravelerTaskState,
    player_entity_id: u64,
    traveler_id: i32,
    excluded_entity_id: Option<u64>,
)
    ensures
        active_task_ids(tasks.push(row), player_entity_id, traveler_id, excluded_entity_id) == if is_active_row(
            row,
            player_entity_id,
            traveler_id,
            excluded_entity_id,
        ) {
            active_task_ids(tasks, player_entity_id, traveler_id, excluded_entity_id).insert(row.task_id)
        } else {
            active_task_ids(tasks, player_entity_id, traveler_id, excluded_entity_id)
        },
{
    let a = active_task_ids(tasks, player_entity_id, traveler_id, excluded_entity_id);
    let b = active_task_ids(tasks.push(row), player_entity_id, traveler_id, excluded_entity_id);
    let pushed = tasks.push(row);
    assert forall|id: i32| b.contains(id) implies (a.contains(id) || (is_active_row(
        row,
        player_entity_id,
        traveler_id,
        excluded_entity_id,
    ) && id == row.task_id)) by {
        let i = choose|i: int|
            0 <= i < pushed.len() && is_active_row(#[trigger] pushed[i], player_entity_id, traveler_id, excluded_entity_id)
                && pushed[i].task_id == id;
        if i < tasks.len() {
            assert(tasks[i] == pushed[i]);
        }
    }
    assert forall|id: i32| a.contains(id) implies b.contains(id) by {
        let i = choose|i: int|
            0 <= i < tasks.len() && is_active_row(#[trigger] tasks[i], player_entity_id, traveler_id, excluded_entity_id)
                && tasks[i].task_id == id;
        assert(pushed[i] == tasks[i]);
    }
    if is_active_row(row, player_entity_id, traveler_id, excluded_entity_id) {
        assert(pushed[tasks.len() as int] == row);
        assert(b.contains(row.task_id));
        assert(b =~= a.insert(row.task_id));
    } else {
        assert(b =~= a);
    }
}

/// Task ids of the player's tasks with the traveler, other than the task
/// whose entity id is `excluded_entity_id`.
pub fn active_task_ids_for_traveler(
    tasks: &Vec<TravelerTaskState>,
    player_entity_id: u64,
    traveler_id: i32,
    excluded_entity_id: Option<u64>,
) -> (ids: HashSet<i32>)
    ensures
        ids@ == active_task_ids(tasks@, player_entity_id, traveler_id, excluded_entity_id),
        ids@.finite(),
{
    let mut ids: HashSet<i32> = HashSet::new();
    proof {
        assert(active_task_ids(tasks@.take(0), player_entity_id, traveler_id, excluded_entity_id) =~= Set::empty());
    }
    for i in 0..tasks.len()
        invariant
            ids@ == active_task_ids(tasks@.take(i as int), player_entity_id, traveler_id, excluded_entity_id),
            ids@.finite(),
    {
        let row = tasks[i];
        proof {
            assert(tasks@.take(i + 1) =~= tasks@.take(i as int).push(row));
            lemma_active_push(tasks@.take(i as int), row, player_entity_id, traveler_id, excluded_entity_id);
        }
        let is_other = match excluded_entity_id {
            Some(e) => e != row.entity_id,
            None => true,
        };
        if row.player_entity_id == player_entity_id && row.traveler_id == traveler_id && is_other {
            ids.insert(row.task_id);
        }
    }
    proof {
        assert(tasks@.take(tasks@.len() as int) =~= tasks@);
    }
    ids
}

/// Index of the task row with the entity id (the first one), or the number of rows.
pub fn find_task_row(tasks: &Vec<TravelerTaskState>, entity_id: u64) -> (i: usize)
    ensures
        i == task_index(tasks@, entity_id),
{
    let mut i: usize = 0;
    while i < tasks.len()
        invariant
            i <= tasks@.len(),
            task_row_index(tasks@, entity_id, i as nat) == tasks@.len(),
        decreases tasks@.len() - i,
    {
        if tasks[i].entity_id == entity_id {
            proof {
                lemma_task_row_index_stays(tasks@, entity_id, (i + 1) as nat, tasks@.len());
            }
            return i;
        }
        i = i + 1;
    }
    i
}

impl TravelerTaskState {
    /// Replaces a task of the player with a newly drawn one for the same
    /// traveler, avoiding the player's other tasks with it and the task being
    /// replaced, and spending `cost` credits when `cost` is positive. Nothing
    /// changes when no task can be drawn or the credits do not suffice. When
    /// the task row is gone, the credits are spent but no row changes.
    /// Returns whether a task row got a new task.
    pub fn replace_completed_task(
        tasks: &mut Vec<TravelerTaskState>,
        credits: &mut Vec<TravelerTaskCreditState>,
        rng: &spacetimedb::StdbRng,
        player_entity_id: u64,
        task_entity_id: u64,
        traveler_id: i32,
        completed_task_id: i32,
        cost: u32,
        requests: &HashMap<i32, Vec<TravelerTaskDesc>>,
        profile: Option<&PlayerProgress>,
        knowledge_requirements: &Vec<TravelerTaskKnowledgeRequirementDesc>,
    ) -> (replaced: bool)
        ensures
            ({
                let candidates = roll_candidates(
                    requests@,
                    traveler_id,
                    replacement_exclusions(old(tasks)@, player_entity_id, traveler_id, task_entity_id, completed_task_id),
                    profile_value(profile),
                    knowledge_requirements@,
                );
                let paid = credits_after(old(credits)@, player_entity_id, traveler_id, cost);
                let i = task_index(old(tasks)@, task_entity_id);
                &&& (candidates.len() == 0 || paid is None) ==> {
                    &&& !replaced
                    &&& final(tasks)@ == old(tasks)@
                    &&& final(credits)@ == old(credits)@
                }
                &&& (candidates.len() > 0 && paid is Some) ==> {
                    &&& final(credits)@ == paid->0
                    &&& replaced == (i < old(tasks)@.len())
                    &&& !replaced ==> final(tasks)@ == old(tasks)@
                }
                &&& replaced ==> exists|id: i32| #[trigger] candidates.contains(id) && final(tasks)@ == with_new_task(old(tasks)@, i, id)
            }),
    {
        let ghost orig = tasks@;
        let mut excluded_task_ids = active_task_ids_for_traveler(tasks, player_entity_id, traveler_id, Some(task_entity_id));
        excluded_task_ids.insert(completed_task_id);
        let ghost candidates = roll_candidates(
            requests@,
            traveler_id,
            excluded_task_ids@,
            profile_value(profile),
            knowledge_requirements@,
        );
        assert(excluded_task_ids@ == replacement_exclusions(orig, player_entity_id, traveler_id, task_entity_id, completed_task_id));
        let next_task_id = match Self::roll_task_id(rng, traveler_id, requests, &excluded_task_ids, profile, knowledge_requirements) {
            Some(id) => id,
            None => return false,
        };
        if cost > 0 && !TravelerTaskCreditState::try_consume_credits(credits, player_entity_id, traveler_id, cost) {
            return false;
        }
        let i = find_task_row(tasks, task_entity_id);
        proof {
            lemma_task_index(tasks@, task_entity_id);
        }
        if i < tasks.len() {
            let row = tasks[i];
            tasks.set(i, TravelerTaskState { task_id: next_task_id, completed: false, ..row });
            proof {
                assert(candidates.contains(next_task_id));
                assert(tasks@ == with_new_task(orig, i as int, next_task_id));
            }
            return true;
        }
        false
    }

    /// Gives a task a newly drawn one for the same traveler, avoiding the
    /// player's other tasks with it and the current task, for the reroll cost
    /// in credits.
    pub fn reroll_task(
        tasks: &mut Vec<TravelerTaskState>,
        credits: &mut Vec<TravelerTaskCreditState>,
        rng: &spacetimedb::StdbRng,
        task_entity_id: u64,
        params: Option<&TravelerTaskParameters>,
        requests: &HashMap<i32, Vec<TravelerTaskDesc>>,
        profile: Option<&PlayerProgress>,
        knowledge_requirements: &Vec<TravelerTaskKnowledgeRequirementDesc>,
    ) -> (result: Result<(), RerollError>)
        ensures
            ({
                let i = task_index(old(tasks)@, task_entity_id);
                let row = old(tasks)@[i];
                let candidates = roll_candidates(
                    requests@,
                    row.traveler_id,
                    replacement_exclusions(old(tasks)@, row.player_entity_id, row.traveler_id, task_entity_id, row.task_id),
                    profile_value(profile),
                    knowledge_requirements@,
                );
                let paid = spend_credits(
                    old(credits)@,
                    row.player_entity_id,
                    row.traveler_id,
                    spec_reroll_credit_cost(
                        params_value(params),
                    ),
                );
                &&& (i == old(tasks)@.len() <==> result == Err::<(), RerollError>(RerollError::TaskNotFound))
                &&& (i < old(tasks)@.len() && candidates.len() == 0 <==> result == Err::<(), RerollError>(
                    RerollError::NoReplacementAvailable,
                ))
                &&& (i < old(tasks)@.len() && candidates.len() > 0 && paid is None <==> result == Err::<(), RerollError>(
                    RerollError::NotEnoughCredits,
                ))
                &&& result is Err ==> final(tasks)@ == old(tasks)@ && final(credits)@ == old(credits)@
                &&& result is Ok ==> {
                    &&& final(credits)@ == paid->0
                    &&& exists|id: i32| #[trigger] candidates.contains(id) && final(tasks)@ == with_new_task(old(tasks)@, i, id)
                }
            }),
    {
        let i = find_task_row(tasks, task_entity_id);
        proof {
            lemma_task_index(tasks@, task_entity_id);
        }
        if i >= tasks.len() {
            return Err(RerollError::TaskNotFound);
        }
        let row = tasks[i];
        let mut excluded_task_ids = active_task_ids_for_traveler(tasks, row.player_entity_id, row.traveler_id, Some(task_entity_id));
        excluded_task_ids.insert(row.task_id);
        let ghost candidates = roll_candidates(
            requests@,
            row.traveler_id,
            excluded_task_ids@,
            profile_value(profile),
            knowledge_requirements@,
        );
        let next_task_id = match Self::roll_task_id(rng, row.traveler_id, requests, &excluded_task_ids, profile, knowledge_requirements) {
            Some(id) => id,
            None => return Err(RerollError::NoReplacementAvailable),
        };
        let reroll_cost = TravelerTaskCreditState::reroll_credit_cost(params);
        if !TravelerTaskCreditState::try_consume_credits(credits, row.player_entity_id, row.traveler_id, reroll_cost) {
            return Err(RerollError::NotEnoughCredits);
        }
        let ghost orig = tasks@;
        tasks.set(i, TravelerTaskState { task_id: next_task_id, completed: false, ..row });
        proof {
            assert(candidates.contains(next_task_id));
            assert(tasks@ == with_new_task(orig, i as int, next_task_id));
        }
        Ok(())
    }

    /// Gives every completed task of the player with a refreshed traveler a
    /// newly drawn task, free of charge. Only such rows change, and each keeps
    /// its entity, player and traveler.
    pub fn retry_completed_task_replacements(
        tasks: &mut Vec<TravelerTaskState>,
        credits: &mut Vec<TravelerTaskCreditState>,
        rng: &spacetimedb::StdbRng,
        player_entity_id: u64,
        refreshed_traveler_ids: &Vec<i32>,
        npcs: &Vec<NpcDesc>,
        task_descs: &Vec<TravelerTaskDesc>,
        profile: Option<&PlayerProgress>,
        knowledge_requirements: &Vec<TravelerTaskKnowledgeRequirementDesc>,
    )
        requires
            unique_task_entities(old(tasks)@),
        ensures
            final(credits)@ == old(credits)@,
            final(tasks)@.len() == old(tasks)@.len(),
            forall|k: int|
                0 <= k < old(tasks)@.len() ==> #[trigger] final(tasks)@[k] == old(tasks)@[k] || ({
                    &&& old(tasks)@[k].completed
                    &&& old(tasks)@[k].player_entity_id == player_entity_id
                    &&& refreshed_traveler_ids@.contains(old(tasks)@[k].traveler_id)
                    &&& reassigned(old(tasks)@[k], final(tasks)@[k])
                    &&& final(tasks)@[k].task_id != old(tasks)@[k].task_id
                }),
            forall|k: int|
                0 <= k < old(tasks)@.len() && (#[trigger] old(tasks)@[k]).completed && old(tasks)@[k].player_entity_id
                    == player_entity_id && refreshed_traveler_ids@.contains(old(tasks)@[k].traveler_id) && final(tasks)@[k]
                    == old(tasks)@[k] ==> offered_candidates(
                    npc_requests(npcs@, task_descs@, npcs@.len()),
                    old(tasks)@[k].traveler_id,
                    held_before_or_after(old(tasks)@, final(tasks)@, player_entity_id, old(tasks)@[k].traveler_id),
                    profile_value(profile),
                    knowledge_requirements@,
                ).len() == 0,
    {
        let ghost original = tasks@;
        let mut completed_tasks: Vec<TravelerTaskState> = Vec::new();
        let ghost mut rows_of: Seq<int> = Seq::empty();
        for i in 0..tasks.len()
            invariant
                tasks@ == original,
                rows_of.len() == completed_tasks@.len(),
                forall|j: int|
                    0 <= j < completed_tasks@.len() ==> {
                        let k = #[trigger] rows_of[j];
                        &&& 0 <= k < original.len()
                        &&& original[k] == completed_tasks@[j]
                        &&& original[k].completed
                        &&& original[k].player_entity_id == player_entity_id
                        &&& refreshed_traveler_ids@.contains(original[k].traveler_id)
                        &&& k < i
                    },
                forall|a: int, b: int| 0 <= a < b < rows_of.len() ==> #[trigger] rows_of[a] < #[trigger] rows_of[b],
                forall|k: int|
                    0 <= k < i && (#[trigger] original[k]).completed && original[k].player_entity_id == player_entity_id
                        && refreshed_traveler_ids@.contains(original[k].traveler_id) ==> exists|j2: int|
                        0 <= j2 < rows_of.len() && #[trigger] rows_of[j2] == k,
        {
            let row = tasks[i];
            let ghost old_rows = rows_of;
            if row.player_entity_id == player_entity_id && row.completed && contains_i32(refreshed_traveler_ids, row.traveler_id) {
                completed_tasks.push(row);
                proof {
                    rows_of = rows_of.push(i as int);
                    assert(rows_of[rows_of.len() - 1] == i);
                }
            }
            proof {
                assert forall|k: int|
                    0 <= k < i + 1 && (#[trigger] original[k]).completed && original[k].player_entity_id == player_entity_id
                        && refreshed_traveler_ids@.contains(original[k].traveler_id) implies exists|j2: int|
                        0 <= j2 < rows_of.len() && #[trigger] rows_of[j2] == k by {
                    if k < i {
                        let j2 = choose|j2: int| 0 <= j2 < old_rows.len() && #[trigger] old_rows[j2] == k;
                        assert(rows_of[j2] == k);
                    } else {
                        assert(rows_of[rows_of.len() - 1] == k);
                    }
                }
            }
        }
        if completed_tasks.len() == 0 {
            return;
        }
        let requests = Self::generate_npc_requests_hashmap(npcs, task_descs);
        for j in 0..completed_tasks.len()
            invariant
                credits@ == old(credits)@,
                tasks@.len() == original.len(),
                unique_task_entities(original),
                forall|k: int| 0 <= k < original.len() ==> (#[trigger] tasks@[k]).entity_id == original[k].entity_id,
                rows_of.len() == completed_tasks@.len(),
                forall|j2: int|
                    0 <= j2 < completed_tasks@.len() ==> {
                        let k = #[trigger] rows_of[j2];
                        &&& 0 <= k < original.len()
                        &&& original[k] == completed_tasks@[j2]
                        &&& original[k].completed
                        &&& original[k].player_entity_id == player_entity_id
                        &&& refreshed_traveler_ids@.contains(original[k].traveler_id)
                    },
                forall|k: int|
                    0 <= k < original.len() ==> #[trigger] tasks@[k] == original[k] || ({
                        &&& original[k].completed
                        &&& original[k].player_entity_id == player_entity_id
                        &&& refreshed_traveler_ids@.contains(original[k].traveler_id)
                        &&& reassigned(original[k], tasks@[k])
                        &&& tasks@[k].task_id != original[k].task_id
                    }),
                forall|a: int, b: int| 0 <= a < b < rows_of.len() ==> #[trigger] rows_of[a] < #[trigger] rows_of[b],
                forall|k: int|
                    0 <= k < original.len() && (#[trigger] original[k]).completed && original[k].player_entity_id
                        == player_entity_id && refreshed_traveler_ids@.contains(original[k].traveler_id) ==> exists|j2: int|
                        0 <= j2 < rows_of.len() && #[trigger] rows_of[j2] == k,
                forall|j2: int| j <= j2 < rows_of.len() ==> tasks@[#[trigger] rows_of[j2]] == original[rows_of[j2]],
                requests_agree(requests@, npc_requests(npcs@, task_descs@, npcs@.len())),
                forall|j2: int|
                    0 <= j2 < j ==> {
                        let k = #[trigger] rows_of[j2];
                        tasks@[k] == original[k] ==> roll_candidates(
                            requests@,
                            original[k].traveler_id,
                            held_before_or_after(original, tasks@, player_entity_id, original[k].traveler_id),
                            profile_value(profile),
                            knowledge_requirements@,
                        ).len() == 0
                    },
        {
            let task = completed_tasks[j];
            let ghost before = tasks@;
            let _ = Self::replace_completed_task(
                tasks,
                credits,
                rng,
                player_entity_id,
                task.entity_id,
                task.traveler_id,
                task.task_id,
                0,
                &requests,
                profile,
                knowledge_requirements,
            );
            proof {
                let k0 = rows_of[j as int];
                lemma_task_index(before, task.entity_id);
                let i = task_index(before, task.entity_id);
                if i < before.len() {
                    assert(before[i].entity_id == original[k0].entity_id);
                    assert(before[k0].entity_id == original[k0].entity_id);
                    assert(i == k0);
                }
                if tasks@ != before {
                    let id = choose|id: i32|
                        #[trigger] roll_candidates(
                            requests@,
                            task.traveler_id,
                            replacement_exclusions(before, player_entity_id, task.traveler_id, task.entity_id, task.task_id),
                            profile_value(profile),
                            knowledge_requirements@,
                        ).contains(id) && tasks@ == with_new_task(before, i, id);
                    law_draw_avoids_exclusions(
                        requests@,
                        task.traveler_id,
                        replacement_exclusions(before, player_entity_id, task.traveler_id, task.entity_id, task.task_id),
                        profile_value(profile),
                        knowledge_requirements@,
                        id,
                    );
                    assert(tasks@[i].task_id != original[k0].task_id);
                }
                let t0 = original[k0].traveler_id;
                assert(before[k0] == original[k0]);
                let ghost new_id: i32 = if tasks@ != before {
                    tasks@[k0].task_id
                } else {
                    0
                };
                assert(tasks@ == before || tasks@ == with_new_task(before, k0, new_id));
                assert forall|j2: int| j + 1 <= j2 < rows_of.len() implies tasks@[#[trigger] rows_of[j2]] == original[rows_of[j2]] by {
                    assert(rows_of[j as int] < rows_of[j2]);
                }
                if tasks@ == before {
                    let excl = replacement_exclusions(before, player_entity_id, t0, task.entity_id, task.task_id);
                    assert(is_active_row(original[k0], player_entity_id, t0, None));
                    lemma_exclusions_held(original, before, player_entity_id, t0, task.entity_id, k0);
                    lemma_empty_draw_stays_empty(
                        requests@,
                        t0,
                        excl,
                        held_before_or_after(original, tasks@, player_entity_id, t0),
                        profile_value(profile),
                        knowledge_requirements@,
                    );
                }
                assert forall|j2: int| 0 <= j2 < j + 1 implies {
                    let k = #[trigger] rows_of[j2];
                    tasks@[k] == original[k] ==> roll_candidates(
                        requests@,
                        original[k].traveler_id,
                        held_before_or_after(original, tasks@, player_entity_id, original[k].traveler_id),
                        profile_value(profile),
                        knowledge_requirements@,
                    ).len() == 0
                } by {
                    let k = rows_of[j2];
                    if j2 < j && tasks@[k] == original[k] {
                        assert(rows_of[j2] < rows_of[j as int]);
                        let t = original[k].traveler_id;
                        lemma_held_grows(original, before, tasks@, player_entity_id, t, k0, new_id);
                        lemma_empty_draw_stays_empty(
                            requests@,
                            t,
                            held_before_or_after(original, before, player_entity_id, t),
                            held_before_or_after(original, tasks@, player_entity_id, t),
                            profile_value(profile),
                            knowledge_requirements@,
                        );
                    }
                }
                assert forall|k: int| 0 <= k < original.len() implies #[trigger] tasks@[k] == original[k] || ({
                    &&& original[k].completed
                    &&& original[k].player_entity_id == player_entity_id
                    &&& refreshed_traveler_ids@.contains(original[k].traveler_id)
                    &&& reassigned(original[k], tasks@[k])
                    &&& tasks@[k].task_id != original[k].task_id
                }) by {
                    if tasks@ != before && k == i {
                    } else if tasks@ != before {
                        assert(tasks@[k] == before[k]);
                    }
                }
            }
        }
    }

    /// Hands the player new tasks with every traveler that hands out tasks,
    /// until the player holds the per-traveler number of tasks with it or no
    /// further task can be drawn. Existing rows stay as they are; each new
    /// row is a task of the player with such a traveler, not completed,
    /// drawn from the tasks the traveler offers the player and not yet held
    /// by the player with that traveler.
    #[verifier::spinoff_prover]
    pub fn generate_initial_tasks(
        tasks: &mut Vec<TravelerTaskState>,
        ids: &mut EntityIdAllocator,
        rng: &spacetimedb::StdbRng,
        player_entity_id: u64,
        npcs: &Vec<NpcDesc>,
        task_descs: &Vec<TravelerTaskDesc>,
        params: Option<&TravelerTaskParameters>,
        profile: Option<&PlayerProgress>,
        knowledge_requirements: &Vec<TravelerTaskKnowledgeRequirementDesc>,
    )
        requires
            old(ids).next_entity_id + npcs@.len() * (i32::MAX as int) < u64::MAX,
        ensures
            final(tasks)@.len() >= old(tasks)@.len(),
            final(tasks)@.len() - old(tasks)@.len() <= npcs@.len() * (i32::MAX as int),
            final(tasks)@.subrange(0, old(tasks)@.len() as int) == old(tasks)@,
            final(ids).next_entity_id == old(ids).next_entity_id + (final(tasks)@.len() - old(tasks)@.len()),
            forall|i: int|
                old(tasks)@.len() <= i < final(tasks)@.len() ==> {
                    let row = #[trigger] final(tasks)@[i];
                    &&& row.entity_id == old(ids).next_entity_id + (i - old(tasks)@.len())
                    &&& row.player_entity_id == player_entity_id
                    &&& !row.completed
                    &&& exists|k: int| 0 <= k < npcs@.len() && hands_out_tasks(#[trigger] npcs@[k]) && npcs@[k].npc_type == row.traveler_id
                    &&& !active_task_ids(final(tasks)@.take(i), player_entity_id, row.traveler_id, None).contains(row.task_id)
                    &&& offered_candidates(
                        npc_requests(npcs@, task_descs@, npcs@.len()),
                        row.traveler_id,
                        active_task_ids(final(tasks)@.take(i), player_entity_id, row.traveler_id, None),
                        profile_value(profile),
                        knowledge_requirements@,
                    ).contains(row.task_id)
                },
            match params {
                Some(p) => p.traveler_tasks_per_npc <= 0,
                None => true,
            } ==> final(tasks)@ == old(tasks)@,
            forall|k: int|
                0 <= k < npcs@.len() && hands_out_tasks(#[trigger] npcs@[k]) ==> traveler_filled(
                    final(tasks)@,
                    player_entity_id,
                    npcs@[k].npc_type,
                    tasks_per_traveler(params_value(params)),
                    npc_requests(npcs@, task_descs@, npcs@.len()),
                    profile_value(profile),
                    knowledge_requirements@,
                ),
    {
        let requests = Self::generate_npc_requests_hashmap(npcs, task_descs);
        let ghost spec_requests = npc_requests(npcs@, task_descs@, npcs@.len());
        let ghost max = tasks_per_traveler(params_value(params));
        let max_tasks_per_traveler: usize = match params {
            Some(p) => if p.traveler_tasks_per_npc < 0 {
                0
            } else {
                p.traveler_tasks_per_npc as usize
            },
            None => 0,
        };
        if max_tasks_per_traveler == 0 {
            proof {
                assert(0 <= npcs@.len() * (i32::MAX as int)) by (nonlinear_arith);
            }
            return;
        }
        assert(max == max_tasks_per_traveler);
        let ghost original = tasks@;
        let ghost start_id = ids.next_entity_id;
        for k in 0..npcs.len()
            invariant
                max_tasks_per_traveler <= i32::MAX,
                max == max_tasks_per_traveler,
                requests_agree(requests@, spec_requests),
                forall|k2: int|
                    0 <= k2 < k && hands_out_tasks(#[trigger] npcs@[k2]) ==> traveler_filled(
                        tasks@,
                        player_entity_id,
                        npcs@[k2].npc_type,
                        max,
                        spec_requests,
                        profile_value(profile),
                        knowledge_requirements@,
                    ),
                start_id + npcs@.len() * (i32::MAX as int) < u64::MAX,
                tasks@.len() >= original.len(),
                tasks@.subrange(0, original.len() as int) == original,
                ids.next_entity_id == start_id + (tasks@.len() - original.len()),
                tasks@.len() - original.len() <= k * max_tasks_per_traveler,
                forall|i: int|
                    original.len() <= i < tasks@.len() ==> {
                        let row = #[trigger] tasks@[i];
                        &&& row.entity_id == start_id + (i - original.len())
                        &&& row.player_entity_id == player_entity_id
                        &&& !row.completed
                        &&& exists|k2: int| 0 <= k2 < k && hands_out_tasks(#[trigger] npcs@[k2]) && npcs@[k2].npc_type == row.traveler_id
                        &&& !active_task_ids(tasks@.take(i), player_entity_id, row.traveler_id, None).contains(row.task_id)
                        &&& offered_candidates(
                            spec_requests,
                            row.traveler_id,
                            active_task_ids(tasks@.take(i), player_entity_id, row.traveler_id, None),
                            profile_value(profile),
                            knowledge_requirements@,
                        ).contains(row.task_id)
                    },
        {
            let npc = &npcs[k];
            let mut skip = npc.task_skill_check.len() == 0;
            if !skip {
                let mut all_non_positive = true;
                for s in 0..npc.task_skill_check.len()
                    invariant
                        all_non_positive == forall|j: int| 0 <= j < s ==> npc.task_skill_check@[j] <= 0,
                {
                    if npc.task_skill_check[s] > 0 {
                        all_non_positive = false;
                    }
                }
                skip = all_non_positive;
            }
            proof {
                if !skip {
                    let j = choose|j: int| 0 <= j < npc.task_skill_check@.len() && !(npc.task_skill_check@[j] <= 0);
                    assert(npc.task_skill_check@[j] > 0);
                    assert(hands_out_tasks(npcs@[k as int]));
                } else {
                    assert(!hands_out_tasks(npcs@[k as int]));
                }
                assert((k + 1) * max_tasks_per_traveler == k * max_tasks_per_traveler + max_tasks_per_traveler) by (nonlinear_arith);
                assert(k * max_tasks_per_traveler <= k * (i32::MAX as int)) by (nonlinear_arith)
                    requires max_tasks_per_traveler <= i32::MAX;
                assert((k + 1) * (i32::MAX as int) <= npcs@.len() * (i32::MAX as int)) by (nonlinear_arith)
                    requires k + 1 <= npcs@.len();
            }
            if !skip {
                let traveler_id = npc.npc_type;
                let mut excluded_task_ids = active_task_ids_for_traveler(tasks, player_entity_id, traveler_id, None);
                let ghost round_start = tasks@.len();
                let ghost round_excluded = excluded_task_ids@.len();
                while excluded_task_ids.len() < max_tasks_per_traveler
                    invariant
                        max_tasks_per_traveler <= i32::MAX,
                        max == max_tasks_per_traveler,
                        requests_agree(requests@, spec_requests),
                        forall|k2: int|
                            0 <= k2 < k && hands_out_tasks(#[trigger] npcs@[k2]) && npcs@[k2].npc_type != traveler_id
                                ==> traveler_filled(
                                tasks@,
                                player_entity_id,
                                npcs@[k2].npc_type,
                                max,
                                spec_requests,
                                profile_value(profile),
                                knowledge_requirements@,
                            ),
                        k < npcs@.len(),
                        npc == &npcs@[k as int],
                        hands_out_tasks(npcs@[k as int]),
                        traveler_id == npcs@[k as int].npc_type,
                        start_id + npcs@.len() * (i32::MAX as int) < u64::MAX,
                        (k + 1) * (i32::MAX as int) <= npcs@.len() * (i32::MAX as int),
                        round_start - original.len() <= k * max_tasks_per_traveler,
                        (k + 1) * max_tasks_per_traveler == k * max_tasks_per_traveler + max_tasks_per_traveler,
                        round_start <= tasks@.len(),
                        tasks@.len() - round_start == excluded_task_ids@.len() - round_excluded,
                        tasks@.len() == round_start || excluded_task_ids@.len() <= max_tasks_per_traveler,
                        excluded_task_ids@ == active_task_ids(tasks@, player_entity_id, traveler_id, None),
                        excluded_task_ids@.finite(),
                        tasks@.len() >= original.len(),
                        tasks@.subrange(0, original.len() as int) == original,
                        ids.next_entity_id == start_id + (tasks@.len() - original.len()),
                        forall|i: int|
                            original.len() <= i < tasks@.len() ==> {
                                let row = #[trigger] tasks@[i];
                                &&& row.entity_id == start_id + (i - original.len())
                                &&& row.player_entity_id == player_entity_id
                                &&& !row.completed
                                &&& exists|k2: int| 0 <= k2 < k + 1 && hands_out_tasks(#[trigger] npcs@[k2]) && npcs@[k2].npc_type == row.traveler_id
                                &&& !active_task_ids(tasks@.take(i), player_entity_id, row.traveler_id, None).contains(row.task_id)
                                &&& offered_candidates(
                                    spec_requests,
                                    row.traveler_id,
                                    active_task_ids(tasks@.take(i), player_entity_id, row.traveler_id, None),
                                    profile_value(profile),
                                    knowledge_requirements@,
                                ).contains(row.task_id)
                            },
                    ensures
                        excluded_task_ids@ == active_task_ids(tasks@, player_entity_id, traveler_id, None),
                        excluded_task_ids@.len() >= max_tasks_per_traveler || roll_candidates(
                            requests@,
                            traveler_id,
                            excluded_task_ids@,
                            profile_value(profile),
                            knowledge_requirements@,
                        ).len() == 0,
                    decreases max_tasks_per_traveler - excluded_task_ids@.len(),
                {
                    let task_id = match Self::roll_task_id(
                        rng,
                        traveler_id,
                        &requests,
                        &excluded_task_ids,
                        profile,
                        knowledge_requirements,
                    ) {
                        Some(id) => id,
                        None => break,
                    };
                    proof {
                        let candidates = roll_candidates(
                            requests@,
                            traveler_id,
                            excluded_task_ids@,
                            profile_value(profile),
                            knowledge_requirements@,
                        );
                        if let Some(p) = profile {
                            lemma_pool_members_offerable(
                                requests@[traveler_id]@,
                                excluded_task_ids@,
                                *p,
                                knowledge_requirements@,
                                requests@[traveler_id]@.len(),
                            );
                        }
                        assert(!excluded_task_ids@.contains(task_id));
                        lemma_agreeing_candidates(
                            requests@,
                            spec_requests,
                            traveler_id,
                            excluded_task_ids@,
                            profile_value(profile),
                            knowledge_requirements@,
                        );
                        assert(tasks@.len() - original.len() < (k + 1) * max_tasks_per_traveler);
                        assert((k + 1) * max_tasks_per_traveler <= (k + 1) * (i32::MAX as int)) by (nonlinear_arith)
                            requires max_tasks_per_traveler <= i32::MAX;
                    }
                    let ghost before = tasks@;
                    let ghost drawn_from = excluded_task_ids@;
                    Self::create_and_commit(tasks, ids, player_entity_id, traveler_id, task_id);
                    excluded_task_ids.insert(task_id);
                    proof {
                        let row = tasks@[before.len() as int];
                        lemma_active_push(before, row, player_entity_id, traveler_id, None);
                        assert forall|k2: int|
                            0 <= k2 < k && hands_out_tasks(#[trigger] npcs@[k2]) && npcs@[k2].npc_type != traveler_id
                                implies traveler_filled(
                                tasks@,
                                player_entity_id,
                                npcs@[k2].npc_type,
                                max,
                                spec_requests,
                                profile_value(profile),
                                knowledge_requirements@,
                            ) by {
                            lemma_active_push(before, row, player_entity_id, npcs@[k2].npc_type, None);
                        }
                        assert(tasks@.take(before.len() as int) =~= before);
                        assert(tasks@.subrange(0, original.len() as int) =~= before.subrange(0, original.len() as int));
                        assert forall|i: int| original.len() <= i < tasks@.len() implies {
                            let row = #[trigger] tasks@[i];
                            &&& row.entity_id == start_id + (i - original.len())
                            &&& row.player_entity_id == player_entity_id
                            &&& !row.completed
                            &&& exists|k2: int| 0 <= k2 < k + 1 && hands_out_tasks(#[trigger] npcs@[k2]) && npcs@[k2].npc_type == row.traveler_id
                            &&& !active_task_ids(tasks@.take(i), player_entity_id, row.traveler_id, None).contains(row.task_id)
                            &&& offered_candidates(
                                spec_requests,
                                row.traveler_id,
                                active_task_ids(tasks@.take(i), player_entity_id, row.traveler_id, None),
                                profile_value(profile),
                                knowledge_requirements@,
                            ).contains(row.task_id)
                        } by {
                            if i < before.len() {
                                assert(tasks@[i] == before[i]);
                                assert(tasks@.take(i) =~= before.take(i));
                            } else {
                                assert(npcs@[k as int].npc_type == row.traveler_id);
                                assert(drawn_from == active_task_ids(tasks@.take(i), player_entity_id, row.traveler_id, None));
                            }
                        }
                    }
                }
                proof {
                    lemma_agreeing_candidates(
                        requests@,
                        spec_requests,
                        traveler_id,
                        excluded_task_ids@,
                        profile_value(profile),
                        knowledge_requirements@,
                    );
                    assert(traveler_filled(
                        tasks@,
                        player_entity_id,
                        traveler_id,
                        max,
                        spec_requests,
                        profile_value(profile),
                        knowledge_requirements@,
                    ));
                }
            }
            proof {
                assert(tasks@.len() - original.len() <= (k + 1) * max_tasks_per_traveler);
                assert forall|i: int| original.len() <= i < tasks@.len() implies {
                    let row = #[trigger] tasks@[i];
                    exists|k2: int| 0 <= k2 < k + 1 && hands_out_tasks(#[trigger] npcs@[k2]) && npcs@[k2].npc_type == row.traveler_id
                } by {
                    let row = tasks@[i];
                }
                assert forall|i: int| original.len() <= i < tasks@.len() implies {
                    let row = #[trigger] tasks@[i];
                    !active_task_ids(tasks@.take(i), player_entity_id, row.traveler_id, None).contains(row.task_id)
                } by {
                    let row = tasks@[i];
                }
            }
        }
        proof {
            assert(npcs@.len() * max_tasks_per_traveler <= npcs@.len() * (i32::MAX as int)) by (nonlinear_arith)
                requires
                    max_tasks_per_traveler <= i32::MAX,
            ;
        }
    }

    /// A player's reroll of one of their tasks: the task must exist, be the
    /// player's, and not be completed; then it is rerolled.
    pub fn player_reroll_traveler_task(
        tasks: &mut Vec<TravelerTaskState>,
        credits: &mut Vec<TravelerTaskCreditState>,
        rng: &spacetimedb::StdbRng,
        actor_id: u64,
        task_entity_id: u64,
        params: Option<&TravelerTaskParameters>,
        requests: &HashMap<i32, Vec<TravelerTaskDesc>>,
        profile: Option<&PlayerProgress>,
        knowledge_requirements: &Vec<TravelerTaskKnowledgeRequirementDesc>,
    ) -> (result: Result<(), RerollError>)
        ensures
            ({
                let i = task_index(old(tasks)@, task_entity_id);
                let row = old(tasks)@[i];
                &&& (i == old(tasks)@.len() ==> result == Err::<(), RerollError>(RerollError::TaskNotFound))
                &&& (i < old(tasks)@.len() && row.player_entity_id != actor_id ==> result == Err::<(), RerollError>(
                    RerollError::NotYourTask,
                ))
                &&& (i < old(tasks)@.len() && row.player_entity_id == actor_id && row.completed ==> result == Err::<
                    (),
                    RerollError,
                >(RerollError::AlreadyCompleted))
                &&& (i == old(tasks)@.len() || row.player_entity_id != actor_id || row.completed) ==> final(tasks)@ == old(tasks)@
                    && final(credits)@ == old(credits)@
            }),
            ({
                let i = task_index(old(tasks)@, task_entity_id);
                let row = old(tasks)@[i];
                let candidates = roll_candidates(
                    requests@,
                    row.traveler_id,
                    replacement_exclusions(old(tasks)@, row.player_entity_id, row.traveler_id, task_entity_id, row.task_id),
                    profile_value(profile),
                    knowledge_requirements@,
                );
                let paid = spend_credits(
                    old(credits)@,
                    row.player_entity_id,
                    row.traveler_id,
                    spec_reroll_credit_cost(
                        params_value(params),
                    ),
                );
                i < old(tasks)@.len() && row.player_entity_id == actor_id && !row.completed ==> {
                    &&& (candidates.len() == 0 <==> result == Err::<(), RerollError>(RerollError::NoReplacementAvailable))
                    &&& (candidates.len() > 0 && paid is None <==> result == Err::<(), RerollError>(RerollError::NotEnoughCredits))
                    &&& result is Err ==> final(tasks)@ == old(tasks)@ && final(credits)@ == old(credits)@
                    &&& result is Ok ==> {
                        &&& final(credits)@ == paid->0
                        &&& exists|id: i32| #[trigger] candidates.contains(id) && final(tasks)@ == with_new_task(old(tasks)@, i, id)
                    }
                }
            }),
    {
        let i = find_task_row(tasks, task_entity_id);
        proof {
            lemma_task_index(tasks@, task_entity_id);
        }
        if i >= tasks.len() {
            return Err(RerollError::TaskNotFound);
        }
        let row = tasks[i];
        if row.player_entity_id != actor_id {
            return Err(RerollError::NotYourTask);
        }
        if row.completed {
            return Err(RerollError::AlreadyCompleted);
        }
        Self::reroll_task(tasks, credits, rng, task_entity_id, params, requests, profile, knowledge_requirements)
    }
}



// ---------------------------------------------------------------------------
// Weekly refresh
// ---------------------------------------------------------------------------

/// The start of a player's credit refresh.
pub open spec fn refresh_start(rows: Seq<TravelerTaskCreditState>, next_entity_id: u64) -> CreditRefresh {
    CreditRefresh { rows, next_entity_id, refreshed: Set::empty() }
}

/// Some traveler was refreshed.
pub open spec fn any_refreshed(r: CreditRefresh) -> bool {
    exists|t: i32| #[trigger] r.refreshed.contains(t)
}

/// The credit rows, the entity counter, and the number of players with a
/// refreshed traveler, after refreshing the first `n` players in order.
pub open spec fn agent_refresh(
    rows: Seq<TravelerTaskCreditState>,
    next_entity_id: u64,
    players: Seq<u64>,
    npcs: Seq<NpcDesc>,
    params: Option<TravelerTaskParameters>,
    now: i32,
    last_tick: i32,
    n: nat,
) -> (Seq<TravelerTaskCreditState>, u64, nat)
    decreases n,
{
    if n == 0 {
        (rows, next_entity_id, 0)
    } else {
        let prev = agent_refresh(rows, next_entity_id, players, npcs, params, now, last_tick, (n - 1) as nat);
        let result = refresh_credits(refresh_start(prev.0, prev.1), npcs, params, players[n - 1], now, last_tick, npcs.len());
        (result.rows, result.next_entity_id, if any_refreshed(result) {
            prev.2 + 1
        } else {
            prev.2
        })
    }
}

/// A refresh hands out at most one entity id per traveler.
proof fn lemma_refresh_ids(
    start: CreditRefresh,
    npcs: Seq<NpcDesc>,
    params: Option<TravelerTaskParameters>,
    player_entity_id: u64,
    now: i32,
    last_tick: i32,
    n: nat,
)
    requires
        start.next_entity_id + n <= u64::MAX,
    ensures
        start.next_entity_id <= refresh_credits(start, npcs, params, player_entity_id, now, last_tick, n).next_entity_id
            <= start.next_entity_id + n,
    decreases n,
{
    if n > 0 {
        lemma_refresh_ids(start, npcs, params, player_entity_id, now, last_tick, (n - 1) as nat);
    }
}

/// The player's agent refreshes advance the entity counter by at most one
/// id per traveler and player.
proof fn lemma_agent_ids(
    rows: Seq<TravelerTaskCreditState>,
    next_entity_id: u64,
    players: Seq<u64>,
    npcs: Seq<NpcDesc>,
    params: Option<TravelerTaskParameters>,
    now: i32,
    last_tick: i32,
    n: nat,
)
    requires
        next_entity_id + n * npcs.len() <= u64::MAX,
    ensures
        next_entity_id <= agent_refresh(rows, next_entity_id, players, npcs, params, now, last_tick, n).1 <= next_entity_id + n
            * npcs.len(),
        agent_refresh(rows, next_entity_id, players, npcs, params, now, last_tick, n).2 <= n,
    decreases n,
{
    if n > 0 {
        let m = (n - 1) as nat;
        assert(m * npcs.len() + npcs.len() == n * npcs.len()) by (nonlinear_arith)
            requires
                m + 1 == n,
        ;
        assert(m * npcs.len() <= n * npcs.len()) by (nonlinear_arith)
            requires
                m + 1 == n,
        ;
        lemma_agent_ids(rows, next_entity_id, players, npcs, params, now, last_tick, m);
        let prev = agent_refresh(rows, next_entity_id, players, npcs, params, now, last_tick, m);
        lemma_refresh_ids(refresh_start(prev.0, prev.1), npcs, params, players[n - 1], now, last_tick, npcs.len());
    }
}

impl TravelerTaskCreditState {
    /// Refreshes the player's weekly credits with every traveler that hands
    /// out tasks (see `refresh_credit_rows`) and, when some traveler was
    /// refreshed, gives the player's completed tasks with the refreshed
    /// travelers new tasks for free. Returns whether some traveler was refreshed.
    pub fn refresh_player_credits(
        rows: &mut Vec<TravelerTaskCreditState>,
        tasks: &mut Vec<TravelerTaskState>,
        ids: &mut EntityIdAllocator,
        rng: &spacetimedb::StdbRng,
        npcs: &Vec<NpcDesc>,
        task_descs: &Vec<TravelerTaskDesc>,
        params: Option<&TravelerTaskParameters>,
        player_entity_id: u64,
        now: i32,
        last_tick: i32,
        profile: Option<&PlayerProgress>,
        knowledge_requirements: &Vec<TravelerTaskKnowledgeRequirementDesc>,
    ) -> (any: bool)
        requires
            old(ids).next_entity_id + npcs@.len() <= u64::MAX,
            unique_task_entities(old(tasks)@),
        ensures
            ({
                let result = refresh_credits(
                    refresh_start(old(rows)@, old(ids).next_entity_id),
                    npcs@,
                    params_value(params),
                    player_entity_id,
                    now,
                    last_tick,
                    npcs@.len(),
                );
                &&& final(rows)@ == result.rows
                &&& final(ids).next_entity_id == result.next_entity_id
                &&& any == any_refreshed(result)
                &&& final(tasks)@.len() == old(tasks)@.len()
                &&& forall|k: int|
                    0 <= k < old(tasks)@.len() ==> #[trigger] final(tasks)@[k] == old(tasks)@[k] || ({
                        &&& old(tasks)@[k].completed
                        &&& old(tasks)@[k].player_entity_id == player_entity_id
                        &&& result.refreshed.contains(old(tasks)@[k].traveler_id)
                        &&& reassigned(old(tasks)@[k], final(tasks)@[k])
                        &&& final(tasks)@[k].task_id != old(tasks)@[k].task_id
                    })
                &&& forall|k: int|
                    0 <= k < old(tasks)@.len() && (#[trigger] old(tasks)@[k]).completed && old(tasks)@[k].player_entity_id
                        == player_entity_id && result.refreshed.contains(old(tasks)@[k].traveler_id) && final(tasks)@[k]
                        == old(tasks)@[k] ==> offered_candidates(
                        npc_requests(npcs@, task_descs@, npcs@.len()),
                        old(tasks)@[k].traveler_id,
                        held_before_or_after(old(tasks)@, final(tasks)@, player_entity_id, old(tasks)@[k].traveler_id),
                        profile_value(profile),
                        knowledge_requirements@,
                    ).len() == 0
            }),
            unique_task_entities(final(tasks)@),
    {
        let ghost before = tasks@;
        let refreshed = Self::refresh_credit_rows(rows, ids, npcs, params, player_entity_id, now, last_tick);
        let ghost result = refresh_credits(
            refresh_start(old(rows)@, old(ids).next_entity_id),
            npcs@,
            params_value(params),
            player_entity_id,
            now,
            last_tick,
            npcs@.len(),
        );
        proof {
            assert(refresh_start(old(rows)@, old(ids).next_entity_id) == CreditRefresh {
                rows: old(rows)@,
                next_entity_id: old(ids).next_entity_id,
                refreshed: Set::empty(),
            });
            assert forall|t: i32| refreshed@.contains(t) <==> #[trigger] result.refreshed.contains(t) by {
                assert(refreshed@.to_set().contains(t) == refreshed@.contains(t));
            }
        }
        if refreshed.len() > 0 {
            TravelerTaskState::retry_completed_task_replacements(
                tasks,
                rows,
                rng,
                player_entity_id,
                &refreshed,
                npcs,
                task_descs,
                profile,
                knowledge_requirements,
            );
            proof {
                assert(result.refreshed.contains(refreshed@[0]));
            }
        } else {
            proof {
                assert forall|t: i32| !result.refreshed.contains(t) by {
                    if result.refreshed.contains(t) {
                        assert(refreshed@.contains(t));
                    }
                }
            }
        }
        proof {
            assert forall|i: int, j: int|
                0 <= i < tasks@.len() && 0 <= j < tasks@.len() && i != j implies (#[trigger] tasks@[i]).entity_id != (
            #[trigger] tasks@[j]).entity_id by {
                assert(tasks@[i].entity_id == before[i].entity_id);
                assert(tasks@[j].entity_id == before[j].entity_id);
            }
        }
        refreshed.len() > 0
    }
}

/// The travelers refreshed for the `j`-th player of the agent's tick.
pub open spec fn refreshed_for_player(
    rows: Seq<TravelerTaskCreditState>,
    next_entity_id: u64,
    players: Seq<u64>,
    npcs: Seq<NpcDesc>,
    params: Option<TravelerTaskParameters>,
    now: i32,
    last_tick: i32,
    j: nat,
) -> Set<i32> {
    let prev = agent_refresh(rows, next_entity_id, players, npcs, params, now, last_tick, j);
    refresh_credits(refresh_start(prev.0, prev.1), npcs, params, players[j as int], now, last_tick, npcs.len()).refreshed
}

/// Excluding more ids never makes an empty offer non-empty.
proof fn lemma_empty_offer_stays_empty(
    requests: Map<i32, Seq<TravelerTaskDesc>>,
    traveler_id: i32,
    small: Set<i32>,
    large: Set<i32>,
    profile: Option<PlayerProgress>,
    reqs: Seq<TravelerTaskKnowledgeRequirementDesc>,
)
    requires
        forall|id: i32| #[trigger] small.contains(id) ==> large.contains(id),
        offered_candidates(requests, traveler_id, small, profile, reqs).len() == 0,
    ensures
        offered_candidates(requests, traveler_id, large, profile, reqs).len() == 0,
{
    if requests.contains_key(traveler_id) && requests[traveler_id].len() > 0 {
        if let Some(p) = profile {
            let t = requests[traveler_id];
            lemma_empty_pool_stays_empty(t, small, large, p, reqs, t.len());
        }
    }
}

/// A step that changes only rows that were still as in `original` keeps
/// every id held before or after it among those held in `original` or after.
proof fn lemma_held_through_step(
    original: Seq<TravelerTaskState>,
    before: Seq<TravelerTaskState>,
    after: Seq<TravelerTaskState>,
    player_entity_id: u64,
    traveler_id: i32,
)
    requires
        original.len() == before.len(),
        before.len() == after.len(),
        forall|r: int| 0 <= r < before.len() ==> #[trigger] after[r] == before[r] || before[r] == original[r],
    ensures
        forall|x: i32|
            #[trigger] held_before_or_after(before, after, player_entity_id, traveler_id).contains(x)
                ==> held_before_or_after(original, after, player_entity_id, traveler_id).contains(x),
        forall|x: i32|
            #[trigger] held_before_or_after(original, before, player_entity_id, traveler_id).contains(x)
                ==> held_before_or_after(original, after, player_entity_id, traveler_id).contains(x),
{
    let a_orig = active_task_ids(original, player_entity_id, traveler_id, None);
    let a_before = active_task_ids(before, player_entity_id, traveler_id, None);
    let a_after = active_task_ids(after, player_entity_id, traveler_id, None);
    assert forall|x: i32| a_before.contains(x) implies a_orig.contains(x) || a_after.contains(x) by {
        let i = choose|i: int|
            0 <= i < before.len() && is_active_row(#[trigger] before[i], player_entity_id, traveler_id, None)
                && before[i].task_id == x;
        if after[i] == before[i] {
            assert(is_active_row(after[i], player_entity_id, traveler_id, None));
        } else {
            assert(is_active_row(original[i], player_entity_id, traveler_id, None));
        }
    }
}

/// The weekly tick of the traveler task agent: refreshes the credits (and
/// retries the task replacements) of every signed-in player, in order.
/// `profiles[k]` is the progress of `signed_in_players[k]`. Returns how many
/// players had some traveler refreshed.
pub fn traveler_task_agent_loop(
    rows: &mut Vec<TravelerTaskCreditState>,
    tasks: &mut Vec<TravelerTaskState>,
    ids: &mut EntityIdAllocator,
    rng: &spacetimedb::StdbRng,
    signed_in_players: &Vec<u64>,
    profiles: &Vec<Option<PlayerProgress>>,
    npcs: &Vec<NpcDesc>,
    task_descs: &Vec<TravelerTaskDesc>,
    params: Option<&TravelerTaskParameters>,
    now: i32,
    last_tick: i32,
    knowledge_requirements: &Vec<TravelerTaskKnowledgeRequirementDesc>,
) -> (count: usize)
    requires
        profiles@.len() == signed_in_players@.len(),
        old(ids).next_entity_id + signed_in_players@.len() * npcs@.len() <= u64::MAX,
        unique_task_entities(old(tasks)@),
    ensures
        ({
            let result = agent_refresh(
                old(rows)@,
                old(ids).next_entity_id,
                signed_in_players@,
                npcs@,
                params_value(params),
                now,
                last_tick,
                signed_in_players@.len(),
            );
            &&& final(rows)@ == result.0
            &&& final(ids).next_entity_id == result.1
            &&& count == result.2
        }),
        final(tasks)@.len() == old(tasks)@.len(),
        unique_task_entities(final(tasks)@),
        forall|k: int|
            0 <= k < old(tasks)@.len() ==> #[trigger] final(tasks)@[k] == old(tasks)@[k] || ({
                &&& old(tasks)@[k].completed
                &&& signed_in_players@.contains(old(tasks)@[k].player_entity_id)
                &&& reassigned(old(tasks)@[k], final(tasks)@[k])
                &&& final(tasks)@[k].task_id != old(tasks)@[k].task_id
            }),
        forall|j: int, r: int|
            #![trigger signed_in_players@[j], old(tasks)@[r]]
            0 <= j < signed_in_players@.len() && 0 <= r < old(tasks)@.len() && old(tasks)@[r].completed
                && old(tasks)@[r].player_entity_id == signed_in_players@[j] && refreshed_for_player(
                old(rows)@,
                old(ids).next_entity_id,
                signed_in_players@,
                npcs@,
                params_value(params),
                now,
                last_tick,
                j as nat,
            ).contains(old(tasks)@[r].traveler_id) && final(tasks)@[r] == old(tasks)@[r] ==> offered_candidates(
                npc_requests(npcs@, task_descs@, npcs@.len()),
                old(tasks)@[r].traveler_id,
                held_before_or_after(old(tasks)@, final(tasks)@, old(tasks)@[r].player_entity_id, old(tasks)@[r].traveler_id),
                profiles@[j],
                knowledge_requirements@,
            ).len() == 0,
{
    let ghost start_rows = rows@;
    let ghost start_id = ids.next_entity_id;
    let mut count: usize = 0;
    for k in 0..signed_in_players.len()
        invariant
            profiles@.len() == signed_in_players@.len(),
            start_id + signed_in_players@.len() * npcs@.len() <= u64::MAX,
            unique_task_entities(tasks@),
            tasks@.len() == old(tasks)@.len(),
            forall|r: int|
                0 <= r < old(tasks)@.len() ==> #[trigger] tasks@[r] == old(tasks)@[r] || ({
                    &&& old(tasks)@[r].completed
                    &&& signed_in_players@.contains(old(tasks)@[r].player_entity_id)
                    &&& reassigned(old(tasks)@[r], tasks@[r])
                    &&& tasks@[r].task_id != old(tasks)@[r].task_id
                }),
            start_rows == old(rows)@,
            start_id == old(ids).next_entity_id,
            forall|j: int, r: int|
                #![trigger signed_in_players@[j], old(tasks)@[r]]
                0 <= j < k && 0 <= r < old(tasks)@.len() && old(tasks)@[r].completed && old(tasks)@[r].player_entity_id
                    == signed_in_players@[j] && refreshed_for_player(
                    start_rows,
                    start_id,
                    signed_in_players@,
                    npcs@,
                    params_value(params),
                    now,
                    last_tick,
                    j as nat,
                ).contains(old(tasks)@[r].traveler_id) && tasks@[r] == old(tasks)@[r] ==> offered_candidates(
                    npc_requests(npcs@, task_descs@, npcs@.len()),
                    old(tasks)@[r].traveler_id,
                    held_before_or_after(old(tasks)@, tasks@, old(tasks)@[r].player_entity_id, old(tasks)@[r].traveler_id),
                    profiles@[j],
                    knowledge_requirements@,
                ).len() == 0,
            ({
                let cur = agent_refresh(start_rows, start_id, signed_in_players@, npcs@, params_value(params), now, last_tick, k as nat);
                &&& rows@ == cur.0
                &&& ids.next_entity_id == cur.1
                &&& count == cur.2
            }),
    {
        proof {
            assert(k * npcs@.len() + npcs@.len() <= signed_in_players@.len() * npcs@.len()) by (nonlinear_arith)
                requires
                    k < signed_in_players@.len(),
            ;
            lemma_agent_ids(start_rows, start_id, signed_in_players@, npcs@, params_value(params), now, last_tick, k as nat);
        }
        let profile = match &profiles[k] {
            Some(p) => Some(p),
            None => None,
        };
        let ghost before = tasks@;
        let any = TravelerTaskCreditState::refresh_player_credits(
            rows,
            tasks,
            ids,
            rng,
            npcs,
            task_descs,
            params,
            signed_in_players[k],
            now,
            last_tick,
            profile,
            knowledge_requirements,
        );
        proof {
            assert forall|r: int| 0 <= r < old(tasks)@.len() implies #[trigger] tasks@[r] == old(tasks)@[r] || ({
                &&& old(tasks)@[r].completed
                &&& signed_in_players@.contains(old(tasks)@[r].player_entity_id)
                &&& reassigned(old(tasks)@[r], tasks@[r])
                &&& tasks@[r].task_id != old(tasks)@[r].task_id
            }) by {
                if tasks@[r] != before[r] {
                    assert(before[r].player_entity_id == signed_in_players@[k as int]);
                    assert(signed_in_players@.contains(signed_in_players@[k as int]));
                }
            }
            let original = old(tasks)@;
            assert forall|r: int| 0 <= r < before.len() implies #[trigger] tasks@[r] == before[r] || before[r] == original[r] by {
                if tasks@[r] != before[r] && before[r] != original[r] {
                    assert(!before[r].completed);
                }
            }
            assert(profile_value(profile) == profiles@[k as int]);
            assert forall|j: int, r: int|
                #![trigger signed_in_players@[j], old(tasks)@[r]]
                0 <= j < k + 1 && 0 <= r < old(tasks)@.len() && old(tasks)@[r].completed && old(tasks)@[r].player_entity_id
                    == signed_in_players@[j] && refreshed_for_player(
                    start_rows,
                    start_id,
                    signed_in_players@,
                    npcs@,
                    params_value(params),
                    now,
                    last_tick,
                    j as nat,
                ).contains(old(tasks)@[r].traveler_id) && tasks@[r] == old(tasks)@[r] implies offered_candidates(
                    npc_requests(npcs@, task_descs@, npcs@.len()),
                    old(tasks)@[r].traveler_id,
                    held_before_or_after(old(tasks)@, tasks@, old(tasks)@[r].player_entity_id, old(tasks)@[r].traveler_id),
                    profiles@[j],
                    knowledge_requirements@,
                ).len() == 0 by {
                let p = original[r].player_entity_id;
                let t = original[r].traveler_id;
                lemma_held_through_step(original, before, tasks@, p, t);
                assert(before[r] == original[r]);
                if j < k {
                    lemma_empty_offer_stays_empty(
                        npc_requests(npcs@, task_descs@, npcs@.len()),
                        t,
                        held_before_or_after(original, before, p, t),
                        held_before_or_after(original, tasks@, p, t),
                        profiles@[j],
                        knowledge_requirements@,
                    );
                } else {
                    assert(before[r].completed && before[r].player_entity_id == signed_in_players@[k as int]);
                    lemma_empty_offer_stays_empty(
                        npc_requests(npcs@, task_descs@, npcs@.len()),
                        t,
                        held_before_or_after(before, tasks@, p, t),
                        held_before_or_after(original, tasks@, p, t),
                        profiles@[j],
                        knowledge_requirements@,
                    );
                }
            }
        }
        if any {
            count = count + 1;
        }
    }
    count
}


/// The player is filled with every traveler that hands out tasks (see
/// `traveler_filled`).
pub open spec fn player_filled(
    tasks: Seq<TravelerTaskState>,
    player_entity_id: u64,
    npcs: Seq<NpcDesc>,
    task_descs: Seq<TravelerTaskDesc>,
    params: Option<TravelerTaskParameters>,
    profile: Option<PlayerProgress>,
    reqs: Seq<TravelerTaskKnowledgeRequirementDesc>,
) -> bool {
    forall|n: int|
        0 <= n < npcs.len() && hands_out_tasks(#[trigger] npcs[n]) ==> traveler_filled(
            tasks,
            player_entity_id,
            npcs[n].npc_type,
            tasks_per_traveler(params),
            npc_requests(npcs, task_descs, npcs.len()),
            profile,
            reqs,
        )
}

/// No player after position `k` and before `m` is the player at `k`.
pub open spec fn last_before(players: Seq<u64>, k: int, m: int) -> bool {
    forall|j: int| k < j < m ==> players[j] != players[k]
}

/// Rows of other players appended to the table leave the player's tasks as
/// they were.
proof fn lemma_other_players_rows(
    before: Seq<TravelerTaskState>,
    after: Seq<TravelerTaskState>,
    player_entity_id: u64,
    traveler_id: i32,
)
    requires
        before.len() <= after.len(),
        after.subrange(0, before.len() as int) == before,
        forall|i: int| before.len() <= i < after.len() ==> (#[trigger] after[i]).player_entity_id != player_entity_id,
    ensures
        active_task_ids(after, player_entity_id, traveler_id, None) == active_task_ids(before, player_entity_id, traveler_id, None),
{
    let a = active_task_ids(after, player_entity_id, traveler_id, None);
    let b = active_task_ids(before, player_entity_id, traveler_id, None);
    assert forall|x: i32| a.contains(x) implies b.contains(x) by {
        let i = choose|i: int|
            0 <= i < after.len() && is_active_row(#[trigger] after[i], player_entity_id, traveler_id, None)
                && after[i].task_id == x;
        assert(after.subrange(0, before.len() as int)[i] == after[i]);
        assert(before[i] == after[i]);
    }
    assert forall|x: i32| b.contains(x) implies a.contains(x) by {
        let i = choose|i: int|
            0 <= i < before.len() && is_active_row(#[trigger] before[i], player_entity_id, traveler_id, None)
                && before[i].task_id == x;
        assert(after.subrange(0, before.len() as int)[i] == after[i]);
        assert(after[i] == before[i]);
    }
    assert(a =~= b);
}

/// Hands every player their initial traveler tasks (an admin command), in
/// order; see `generate_initial_tasks`. `profiles[k]` is the progress of
/// `players[k]`. Returns the number of players processed. Existing rows stay
/// as they are; each new row is an open task of one of the players with a
/// traveler that hands out tasks, with the next entity id. Afterwards every
/// player is filled with each such traveler, drawn with the progress given at
/// the player's last place in the list.
pub fn admin_migrate_traveler_tasks(
    is_admin: bool,
    tasks: &mut Vec<TravelerTaskState>,
    ids: &mut EntityIdAllocator,
    rng: &spacetimedb::StdbRng,
    players: &Vec<u64>,
    profiles: &Vec<Option<PlayerProgress>>,
    npcs: &Vec<NpcDesc>,
    task_descs: &Vec<TravelerTaskDesc>,
    params: Option<&TravelerTaskParameters>,
    knowledge_requirements: &Vec<TravelerTaskKnowledgeRequirementDesc>,
) -> (result: Result<usize, AdminError>)
    requires
        profiles@.len() == players@.len(),
        old(ids).next_entity_id + players@.len() * (npcs@.len() * (i32::MAX as int)) < u64::MAX,
    ensures
        !is_admin ==> result == Err::<usize, AdminError>(AdminError::Unauthorized) && final(tasks)@ == old(tasks)@
            && *final(ids) == *old(ids),
        is_admin ==> result == Ok::<usize, AdminError>(players.len()),
        final(tasks)@.len() >= old(tasks)@.len(),
        final(tasks)@.subrange(0, old(tasks)@.len() as int) == old(tasks)@,
        final(ids).next_entity_id == old(ids).next_entity_id + (final(tasks)@.len() - old(tasks)@.len()),
        forall|i: int|
            old(tasks)@.len() <= i < final(tasks)@.len() ==> {
                let row = #[trigger] final(tasks)@[i];
                &&& row.entity_id == old(ids).next_entity_id + (i - old(tasks)@.len())
                &&& players@.contains(row.player_entity_id)
                &&& !row.completed
                &&& exists|k: int| 0 <= k < npcs@.len() && hands_out_tasks(#[trigger] npcs@[k]) && npcs@[k].npc_type == row.traveler_id
            },
        is_admin ==> forall|k: int|
            0 <= k < players@.len() && last_before(players@, k, players@.len() as int) ==> player_filled(
                final(tasks)@,
                players@[k],
                npcs@,
                task_descs@,
                params_value(params),
                #[trigger] profiles@[k],
                knowledge_requirements@,
            ),
{
    if !is_admin {
        return Err(AdminError::Unauthorized);
    }
    let ghost original = tasks@;
    let ghost start_id = ids.next_entity_id;
    let ghost per_player = npcs@.len() * (i32::MAX as int);
    for p in 0..players.len()
        invariant
            profiles@.len() == players@.len(),
            per_player == npcs@.len() * (i32::MAX as int),
            start_id + players@.len() * per_player < u64::MAX,
            tasks@.len() >= original.len(),
            tasks@.len() - original.len() <= p * per_player,
            tasks@.subrange(0, original.len() as int) == original,
            ids.next_entity_id == start_id + (tasks@.len() - original.len()),
            forall|i: int|
                original.len() <= i < tasks@.len() ==> {
                    let row = #[trigger] tasks@[i];
                    &&& row.entity_id == start_id + (i - original.len())
                    &&& players@.contains(row.player_entity_id)
                    &&& !row.completed
                    &&& exists|k: int| 0 <= k < npcs@.len() && hands_out_tasks(#[trigger] npcs@[k]) && npcs@[k].npc_type == row.traveler_id
                },
            forall|k: int|
                0 <= k < p && last_before(players@, k, p as int) ==> player_filled(
                    tasks@,
                    players@[k],
                    npcs@,
                    task_descs@,
                    params_value(params),
                    #[trigger] profiles@[k],
                    knowledge_requirements@,
                ),
    {
        proof {
            assert(p * per_player + per_player <= players@.len() * per_player) by (nonlinear_arith)
                requires
                    p < players@.len(),
                    0 <= per_player,
            ;
            assert(0 <= per_player) by (nonlinear_arith)
                requires
                    per_player == npcs@.len() * (i32::MAX as int),
            ;
            assert((p + 1) * per_player == p * per_player + per_player) by (nonlinear_arith);
        }
        let ghost before = tasks@;
        let profile = match &profiles[p] {
            Some(pr) => Some(pr),
            None => None,
        };
        TravelerTaskState::generate_initial_tasks(
            tasks,
            ids,
            rng,
            players[p],
            npcs,
            task_descs,
            params,
            profile,
            knowledge_requirements,
        );
        proof {
            assert(tasks@.subrange(0, original.len() as int) =~= before.subrange(0, original.len() as int)) by {
                assert forall|j: int| 0 <= j < original.len() implies tasks@[j] == before[j] by {
                    assert(tasks@.subrange(0, before.len() as int)[j] == tasks@[j]);
                }
            }
            assert forall|i: int| original.len() <= i < tasks@.len() implies {
                let row = #[trigger] tasks@[i];
                &&& row.entity_id == start_id + (i - original.len())
                &&& players@.contains(row.player_entity_id)
                &&& !row.completed
                &&& exists|k: int| 0 <= k < npcs@.len() && hands_out_tasks(#[trigger] npcs@[k]) && npcs@[k].npc_type == row.traveler_id
            } by {
                if i < before.len() {
                    assert(tasks@.subrange(0, before.len() as int)[i] == tasks@[i]);
                    assert(tasks@[i] == before[i]);
                } else {
                    assert(players@[p as int] == tasks@[i].player_entity_id);
                }
            }
            assert(profile_value(profile) == profiles@[p as int]);
            assert forall|k: int| 0 <= k < p + 1 && last_before(players@, k, p + 1) implies player_filled(
                tasks@,
                players@[k],
                npcs@,
                task_descs@,
                params_value(params),
                #[trigger] profiles@[k],
                knowledge_requirements@,
            ) by {
                if k < p {
                    assert(last_before(players@, k, p as int));
                    assert(players@[p as int] != players@[k]);
                    assert forall|n: int| 0 <= n < npcs@.len() && hands_out_tasks(#[trigger] npcs@[n]) implies traveler_filled(
                        tasks@,
                        players@[k],
                        npcs@[n].npc_type,
                        tasks_per_traveler(params_value(params)),
                        npc_requests(npcs@, task_descs@, npcs@.len()),
                        profiles@[k],
                        knowledge_requirements@,
                    ) by {
                        lemma_other_players_rows(before, tasks@, players@[k], npcs@[n].npc_type);
                    }
                }
            }
        }
    }
    Ok(players.len())
}

// ---------------------------------------------------------------------------
// Laws
// ---------------------------------------------------------------------------

/// A drawn task is never one of the excluded tasks: a reroll or replacement
/// never hands back the task it replaces, nor one the player already holds
/// with that traveler.
pub proof fn law_draw_avoids_exclusions(
    requests: Map<i32, Vec<TravelerTaskDesc>>,
    traveler_id: i32,
    excluded: Set<i32>,
    profile: Option<PlayerProgress>,
    reqs: Seq<TravelerTaskKnowledgeRequirementDesc>,
    id: i32,
)
    requires
        roll_candidates(requests, traveler_id, excluded, profile, reqs).contains(id),
    ensures
        !excluded.contains(id),
{
    if requests.contains_key(traveler_id) && requests[traveler_id]@.len() > 0 {
        if let Some(p) = profile {
            lemma_pool_members_offerable(requests[traveler_id]@, excluded, p, reqs, requests[traveler_id]@.len());
        }
    }
}

/// A replacement for a task avoids the task it replaces and every other task
/// the player holds with the traveler.
pub proof fn law_replacement_is_new(
    tasks: Seq<TravelerTaskState>,
    requests: Map<i32, Vec<TravelerTaskDesc>>,
    player_entity_id: u64,
    traveler_id: i32,
    task_entity_id: u64,
    previous_task_id: i32,
    profile: Option<PlayerProgress>,
    reqs: Seq<TravelerTaskKnowledgeRequirementDesc>,
    id: i32,
)
    requires
        roll_candidates(
            requests,
            traveler_id,
            replacement_exclusions(tasks, player_entity_id, traveler_id, task_entity_id, previous_task_id),
            profile,
            reqs,
        ).contains(id),
    ensures
        id != previous_task_id,
        forall|i: int|
            0 <= i < tasks.len() && (#[trigger] tasks[i]).player_entity_id == player_entity_id && tasks[i].traveler_id == traveler_id
                && tasks[i].entity_id != task_entity_id ==> tasks[i].task_id != id,
{
    let excluded = replacement_exclusions(tasks, player_entity_id, traveler_id, task_entity_id, previous_task_id);
    law_draw_avoids_exclusions(requests, traveler_id, excluded, profile, reqs, id);
    assert forall|i: int|
        0 <= i < tasks.len() && (#[trigger] tasks[i]).player_entity_id == player_entity_id && tasks[i].traveler_id == traveler_id
            && tasks[i].entity_id != task_entity_id implies tasks[i].task_id != id by {
        assert(is_active_row(tasks[i], player_entity_id, traveler_id, Some(task_entity_id)));
        assert(active_task_ids(tasks, player_entity_id, traveler_id, Some(task_entity_id)).contains(tasks[i].task_id));
    }
}

/// Every drawable task suits the player: the player's level in its skill is
/// in its range and the player's knowledge allows it.
pub proof fn law_pool_tasks_suit_player(
    tasks: Seq<TravelerTaskDesc>,
    excluded: Set<i32>,
    profile: PlayerProgress,
    reqs: Seq<TravelerTaskKnowledgeRequirementDesc>,
    j: int,
)
    requires
        0 <= j < tasks.len(),
    ensures
        task_pool(tasks, excluded, profile, reqs, tasks.len()).contains(tasks[j].id) <== offerable(tasks[j], excluded, profile, reqs),
        offerable(tasks[j], excluded, profile, reqs) ==> {
            let level = skill_level(profile, tasks[j].level_requirement.skill_id);
            tasks[j].level_requirement.min_level <= level <= tasks[j].level_requirement.max_level
        },
{
    lemma_pool_includes(tasks, excluded, profile, reqs, tasks.len(), j);
}

proof fn lemma_pool_includes(
    tasks: Seq<TravelerTaskDesc>,
    excluded: Set<i32>,
    profile: PlayerProgress,
    reqs: Seq<TravelerTaskKnowledgeRequirementDesc>,
    n: nat,
    j: int,
)
    requires
        0 <= j < n <= tasks.len(),
    ensures
        offerable(tasks[j], excluded, profile, reqs) ==> task_pool(tasks, excluded, profile, reqs, n).contains(tasks[j].id),
    decreases n,
{
    let cur = task_pool(tasks, excluded, profile, reqs, n);
    if j == n - 1 {
        if offerable(tasks[j], excluded, profile, reqs) {
            assert(cur[cur.len() - 1] == tasks[j].id);
        }
    } else {
        lemma_pool_includes(tasks, excluded, profile, reqs, (n - 1) as nat, j);
        let prev = task_pool(tasks, excluded, profile, reqs, (n - 1) as nat);
        if offerable(tasks[j], excluded, profile, reqs) {
            let k = choose|k: int| 0 <= k < prev.len() && prev[k] == tasks[j].id;
            assert(cur[k] == tasks[j].id);
        }
    }
}

/// The task with the id among the first `n` suits the player: it is not
/// excluded, the player's level in its skill lies in its range, the player
/// holds each of its required knowledges and none of its blocking ones.
pub open spec fn suits_player(
    tasks: Seq<TravelerTaskDesc>,
    excluded: Set<i32>,
    profile: PlayerProgress,
    reqs: Seq<TravelerTaskKnowledgeRequirementDesc>,
    j: int,
) -> bool {
    let task = tasks[j];
    let level = skill_level(profile, task.level_requirement.skill_id);
    &&& !excluded.contains(task.id)
    &&& task.level_requirement.min_level <= level <= task.level_requirement.max_level
    &&& forall|r: TravelerTaskKnowledgeRequirementDesc|
        requirement_for(reqs, task.id, reqs.len()) == Some(r) ==> {
            &&& forall|i: int| 0 <= i < r.required_knowledges@.len() ==> acquired(profile, #[trigger] r.required_knowledges@[i])
            &&& forall|i: int| 0 <= i < r.blocking_knowledges@.len() ==> !acquired(profile, #[trigger] r.blocking_knowledges@[i])
        }
}

proof fn lemma_pool_members_suit(
    tasks: Seq<TravelerTaskDesc>,
    excluded: Set<i32>,
    profile: PlayerProgress,
    reqs: Seq<TravelerTaskKnowledgeRequirementDesc>,
    n: nat,
)
    requires
        n <= tasks.len(),
    ensures
        forall|k: int|
            0 <= k < task_pool(tasks, excluded, profile, reqs, n).len() ==> exists|j: int|
                0 <= j < n && tasks[j].id == #[trigger] task_pool(tasks, excluded, profile, reqs, n)[k] && suits_player(
                    tasks,
                    excluded,
                    profile,
                    reqs,
                    j,
                ),
    decreases n,
{
    if n > 0 {
        lemma_pool_members_suit(tasks, excluded, profile, reqs, (n - 1) as nat);
        let prev = task_pool(tasks, excluded, profile, reqs, (n - 1) as nat);
        let cur = task_pool(tasks, excluded, profile, reqs, n);
        let j = n - 1;
        if offerable(tasks[j], excluded, profile, reqs) {
            assert forall|r: TravelerTaskKnowledgeRequirementDesc|
                requirement_for(reqs, tasks[j].id, reqs.len()) == Some(r) implies {
                    &&& forall|i: int| 0 <= i < r.required_knowledges@.len() ==> acquired(profile, #[trigger] r.required_knowledges@[i])
                    &&& forall|i: int| 0 <= i < r.blocking_knowledges@.len() ==> !acquired(profile, #[trigger] r.blocking_knowledges@[i])
                } by {
                assert(knowledge_allows(profile, Some(r)));
            }
            assert(suits_player(tasks, excluded, profile, reqs, j));
        }
        assert forall|k: int| 0 <= k < cur.len() implies exists|j2: int|
            0 <= j2 < n && tasks[j2].id == #[trigger] cur[k] && suits_player(tasks, excluded, profile, reqs, j2) by {
            if k < prev.len() {
                assert(cur[k] == prev[k]);
                let j2 = choose|j2: int| 0 <= j2 < n - 1 && tasks[j2].id == #[trigger] prev[k] && suits_player(tasks, excluded, profile, reqs, j2);
                assert(tasks[j2].id == cur[k]);
            } else {
                assert(tasks[j].id == cur[k]);
            }
        }
    }
}

/// The id is that of one of the tasks, and that task suits the player.
pub open spec fn id_of_suiting_task(
    tasks: Seq<TravelerTaskDesc>,
    excluded: Set<i32>,
    profile: PlayerProgress,
    reqs: Seq<TravelerTaskKnowledgeRequirementDesc>,
    id: i32,
) -> bool {
    exists|j: int| 0 <= j < tasks.len() && tasks[j].id == id && #[trigger] suits_player(tasks, excluded, profile, reqs, j)
}

/// Every task the draw picks from suits the player: it is one of the
/// traveler's tasks, not excluded, within the player's level range, and the
/// player holds all of its required knowledges and none of its blocking
/// knowledges (a single acquired blocking knowledge keeps it out).
pub proof fn law_pool_tasks_have_no_blocking_knowledge(
    tasks: Seq<TravelerTaskDesc>,
    excluded: Set<i32>,
    profile: PlayerProgress,
    reqs: Seq<TravelerTaskKnowledgeRequirementDesc>,
)
    ensures
        forall|k: int|
            0 <= k < task_pool(tasks, excluded, profile, reqs, tasks.len()).len() ==> id_of_suiting_task(
                tasks,
                excluded,
                profile,
                reqs,
                #[trigger] task_pool(tasks, excluded, profile, reqs, tasks.len())[k],
            ),
{
    let pool = task_pool(tasks, excluded, profile, reqs, tasks.len());
    lemma_pool_members_suit(tasks, excluded, profile, reqs, tasks.len());
    assert forall|k: int| 0 <= k < pool.len() implies id_of_suiting_task(tasks, excluded, profile, reqs, #[trigger] pool[k]) by {
        let j = choose|j: int|
            0 <= j < tasks.len() && tasks[j].id == #[trigger] pool[k] && suits_player(tasks, excluded, profile, reqs, j);
        assert(suits_player(tasks, excluded, profile, reqs, j));
    }
}

} // verus!
