//! Turning in a traveler task: the checks a turn-in must pass, and marking
//! the task completed before a new one replaces it.
use std::collections::HashMap;
use vstd::prelude::*;

use crate::progress::{acquired, contains_i32, profile_value, PlayerProgress};
use crate::traveler_credits::{NpcDesc, TravelerTaskCreditState};
use crate::traveler_tasks::{
    active_task_ids, credits_after, find_knowledge_requirement, find_task_row, is_active_row, lemma_task_index,
    replacement_exclusions, requirement_for,
    roll_candidates, task_index, with_new_task, TravelerTaskDesc, TravelerTaskKnowledgeRequirementDesc, TravelerTaskState,
};

verus! {

/// How far (in small tiles) a player may stand from the traveler to turn in.
pub const MAX_TURN_IN_DISTANCE: i32 = 8;

/// Why a turn-in was refused.
#[derive(Clone, Copy, Debug, PartialEq, Eq, Structural)]
pub enum TurnInError {
    TaskNotFound,
    NotYourTask,
    AlreadyTurnedIn,
    UnknownTaskKind,
    TravelerNotFound,
    TooFar,
    WrongTraveler,
    TaskNotOffered,
    MissingKnowledge,
}

impl TurnInError {
    /// The message shown to the player.
    pub fn message(&self) -> (text: &'static str)
        ensures
            text == match *self {
                TurnInError::TaskNotFound => "The task no longer exists",
                TurnInError::NotYourTask => "The task is not yours to turn in",
                TurnInError::AlreadyTurnedIn => "The task has already been turned in",
                TurnInError::UnknownTaskKind => "This is an unknown type of task",
                TurnInError::TravelerNotFound => "This traveler doesn't exist",
                TurnInError::TooFar => "Too far",
                TurnInError::WrongTraveler => "This traveler did not issue the task",
                TurnInError::TaskNotOffered => "This traveler does not offer that kind of task",
                TurnInError::MissingKnowledge => "You don't have the knowledge required to complete the task",
            },
    {
        match self {
            TurnInError::TaskNotFound => "The task no longer exists",
            TurnInError::NotYourTask => "The task is not yours to turn in",
            TurnInError::AlreadyTurnedIn => "The task has already been turned in",
            TurnInError::UnknownTaskKind => "This is an unknown type of task",
            TurnInError::TravelerNotFound => "This traveler doesn't exist",
            TurnInError::TooFar => "Too far",
            TurnInError::WrongTraveler => "This traveler did not issue the task",
            TurnInError::TaskNotOffered => "This traveler does not offer that kind of task",
            TurnInError::MissingKnowledge => "You don't have the knowledge required to complete the task",
        }
    }
}

// ---------------------------------------------------------------------------
// Specifications
// ---------------------------------------------------------------------------

/// The player holds every knowledge the task requires (its blocking
/// knowledges only keep it from being offered).
pub open spec fn holds_required_knowledges(progress: PlayerProgress, req: Option<TravelerTaskKnowledgeRequirementDesc>) -> bool {
    match req {
        Some(r) => r.required_knowledges@.len() == 0 || forall|i: int|
            0 <= i < r.required_knowledges@.len() ==> acquired(progress, #[trigger] r.required_knowledges@[i]),
        None => true,
    }
}

/// The checks up to the traveler's identity pass: the task exists, is the
/// actor's and open, its kind is known, the traveler exists, is near, and
/// issued the task.
pub open spec fn traveler_checks_pass(
    tasks: Seq<TravelerTaskState>,
    task_entity_id: u64,
    actor_id: u64,
    task_desc: Option<TravelerTaskDesc>,
    npc_type: Option<i32>,
    distance: i32,
) -> bool {
    let i = task_index(tasks, task_entity_id);
    &&& i < tasks.len()
    &&& tasks[i].player_entity_id == actor_id
    &&& !tasks[i].completed
    &&& task_desc is Some
    &&& npc_type is Some
    &&& distance <= MAX_TURN_IN_DISTANCE
    &&& npc_type->0 == tasks[i].traveler_id
}

/// The verdict on a turn-in, checked in order.
pub open spec fn turn_in_verdict(
    tasks: Seq<TravelerTaskState>,
    task_entity_id: u64,
    actor_id: u64,
    task_desc: Option<TravelerTaskDesc>,
    npc_type: Option<i32>,
    distance: i32,
    npc_desc: Option<NpcDesc>,
    progress: Option<PlayerProgress>,
    reqs: Seq<TravelerTaskKnowledgeRequirementDesc>,
) -> Result<(), TurnInError> {
    let i = task_index(tasks, task_entity_id);
    if i == tasks.len() {
        Err(TurnInError::TaskNotFound)
    } else if tasks[i].player_entity_id != actor_id {
        Err(TurnInError::NotYourTask)
    } else if tasks[i].completed {
        Err(TurnInError::AlreadyTurnedIn)
    } else if task_desc is None {
        Err(TurnInError::UnknownTaskKind)
    } else if npc_type is None {
        Err(TurnInError::TravelerNotFound)
    } else if distance > MAX_TURN_IN_DISTANCE {
        Err(TurnInError::TooFar)
    } else if npc_type->0 != tasks[i].traveler_id {
        Err(TurnInError::WrongTraveler)
    } else if !npc_desc->0.task_skill_check@.contains(task_desc->0.level_requirement.skill_id) {
        Err(TurnInError::TaskNotOffered)
    } else if !holds_required_knowledges(progress->0, requirement_for(reqs, tasks[i].task_id, reqs.len())) {
        Err(TurnInError::MissingKnowledge)
    } else {
        Ok(())
    }
}

/// The task description behind an optional reference.
pub open spec fn desc_value(desc: Option<&TravelerTaskDesc>) -> Option<TravelerTaskDesc> {
    match desc {
        Some(d) => Some(*d),
        None => None,
    }
}

/// The traveler description behind an optional reference.
pub open spec fn npc_value(npc: Option<&NpcDesc>) -> Option<NpcDesc> {
    match npc {
        Some(n) => Some(*n),
        None => None,
    }
}

/// The task table once the row at `i` is marked completed.
pub open spec fn marked_completed(tasks: Seq<TravelerTaskState>, i: int) -> Seq<TravelerTaskState> {
    tasks.update(i, TravelerTaskState { completed: true, ..tasks[i] })
}

// ---------------------------------------------------------------------------
// Executable functions
// ---------------------------------------------------------------------------

/// Checks a player's turn-in of a task to a traveler, in order: the task
/// exists, is the player's and not yet turned in, its kind is known, the
/// traveler exists and stands within reach, issued the task, offers tasks
/// of its skill, and the player holds the knowledges the task requires.
/// `npc_type` is the traveler's type, `distance` the distance between
/// player and traveler, and `npc_desc` the description of the traveler's type.
pub fn validate_task_turn_in(
    tasks: &Vec<TravelerTaskState>,
    task_entity_id: u64,
    actor_id: u64,
    task_desc: Option<&TravelerTaskDesc>,
    npc_type: Option<i32>,
    distance: i32,
    npc_desc: Option<&NpcDesc>,
    progress: Option<&PlayerProgress>,
    knowledge_requirements: &Vec<TravelerTaskKnowledgeRequirementDesc>,
) -> (verdict: Result<(), TurnInError>)
    requires
        traveler_checks_pass(tasks@, task_entity_id, actor_id, desc_value(task_desc), npc_type, distance) ==> npc_desc is Some,
        traveler_checks_pass(tasks@, task_entity_id, actor_id, desc_value(task_desc), npc_type, distance)
            && npc_value(npc_desc)->0.task_skill_check@.contains(desc_value(task_desc)->0.level_requirement.skill_id)
            ==> progress is Some,
    ensures
        verdict == turn_in_verdict(
            tasks@,
            task_entity_id,
            actor_id,
            desc_value(task_desc),
            npc_type,
            distance,
            npc_value(npc_desc),
            profile_value(progress),
            knowledge_requirements@,
        ),
{
    let i = find_task_row(tasks, task_entity_id);
    proof {
        lemma_task_index(tasks@, task_entity_id);
    }
    if i >= tasks.len() {
        return Err(TurnInError::TaskNotFound);
    }
    let task = tasks[i];
    if task.player_entity_id != actor_id {
        return Err(TurnInError::NotYourTask);
    }
    if task.completed {
        return Err(TurnInError::AlreadyTurnedIn);
    }
    let desc = match task_desc {
        Some(d) => d,
        None => return Err(TurnInError::UnknownTaskKind),
    };
    let traveler_type = match npc_type {
        Some(t) => t,
        None => return Err(TurnInError::TravelerNotFound),
    };
    if distance > MAX_TURN_IN_DISTANCE {
        return Err(TurnInError::TooFar);
    }
    if traveler_type != task.traveler_id {
        return Err(TurnInError::WrongTraveler);
    }
    let npc = match npc_desc {
        Some(n) => n,
        None => return Err(TurnInError::TravelerNotFound),
    };
    let offered = contains_i32(&npc.task_skill_check, desc.level_requirement.skill_id);
    if !offered {
        return Err(TurnInError::TaskNotOffered);
    }
    let p = match progress {
        Some(p) => p,
        None => return Err(TurnInError::MissingKnowledge),
    };
    match find_knowledge_requirement(knowledge_requirements, task.task_id) {
        Some(r) => {
            let requirement = &knowledge_requirements[r];
            if requirement.required_knowledges.len() > 0 && !p.all_acquired(&requirement.required_knowledges) {
                proof {
                    assert(!holds_required_knowledges(*p, Some(*requirement)));
                }
                return Err(TurnInError::MissingKnowledge);
            }
        },
        None => {},
    }
    Ok(())
}

impl TravelerTaskState {
    /// Completes a turned-in task: the row is marked completed, then a new
    /// task is drawn for it at the cost of one credit. When no task can be
    /// drawn or the credit is lacking, the row stays completed (a later
    /// retry replaces it). Returns whether the row got a new task.
    pub fn complete_turned_in_task(
        tasks: &mut Vec<TravelerTaskState>,
        credits: &mut Vec<TravelerTaskCreditState>,
        rng: &spacetimedb::StdbRng,
        actor_id: u64,
        task_entity_id: u64,
        requests: &HashMap<i32, Vec<TravelerTaskDesc>>,
        profile: Option<&PlayerProgress>,
        knowledge_requirements: &Vec<TravelerTaskKnowledgeRequirementDesc>,
    ) -> (replaced: bool)
        requires
            task_index(old(tasks)@, task_entity_id) < old(tasks)@.len(),
        ensures
            ({
                let i = task_index(old(tasks)@, task_entity_id);
                let row = old(tasks)@[i];
                let marked = marked_completed(old(tasks)@, i);
                let candidates = roll_candidates(
                    requests@,
                    row.traveler_id,
                    replacement_exclusions(old(tasks)@, actor_id, row.traveler_id, task_entity_id, row.task_id),
                    profile_value(profile),
                    knowledge_requirements@,
                );
                let paid = credits_after(old(credits)@, actor_id, row.traveler_id, 1);
                &&& (candidates.len() == 0 || paid is None) ==> {
                    &&& !replaced
                    &&& final(tasks)@ == marked
                    &&& final(credits)@ == old(credits)@
                }
                &&& (candidates.len() > 0 && paid is Some) ==> {
                    &&& replaced
                    &&& final(credits)@ == paid->0
                }
                &&& replaced ==> exists|id: i32| #[trigger] candidates.contains(id) && final(tasks)@ == with_new_task(old(tasks)@, i, id)
            }),
    {
        let ghost orig = tasks@;
        let i = find_task_row(tasks, task_entity_id);
        proof {
            lemma_task_index(tasks@, task_entity_id);
        }
        let row = tasks[i];
        tasks.set(i, TravelerTaskState { completed: true, ..row });
        proof {
            assert(tasks@ == marked_completed(orig, i as int));
            lemma_marking_keeps_exclusions(orig, i as int, actor_id, row.traveler_id, row.task_id);
            lemma_task_index_after_marking(orig, i as int, task_entity_id);
        }
        let replaced = Self::replace_completed_task(
            tasks,
            credits,
            rng,
            actor_id,
            task_entity_id,
            row.traveler_id,
            row.task_id,
            1,
            requests,
            profile,
            knowledge_requirements,
        );
        proof {
            let marked = marked_completed(orig, i as int);
            assert forall|id: i32| with_new_task(marked, i as int, id) == with_new_task(orig, i as int, id) by {
                assert(with_new_task(marked, i as int, id) =~= with_new_task(orig, i as int, id));
            }
        }
        replaced
    }
}

/// Marking a row completed keeps the task ids a replacement of it avoids.
proof fn lemma_marking_keeps_exclusions(
    tasks: Seq<TravelerTaskState>,
    i: int,
    player_entity_id: u64,
    traveler_id: i32,
    previous_task_id: i32,
)
    requires
        0 <= i < tasks.len(),
    ensures
        replacement_exclusions(
            marked_completed(tasks, i),
            player_entity_id,
            traveler_id,
            tasks[i].entity_id,
            previous_task_id,
        ) == replacement_exclusions(tasks, player_entity_id, traveler_id, tasks[i].entity_id, previous_task_id),
{
    let marked = marked_completed(tasks, i);
    let e = tasks[i].entity_id;
    let excluded = Some(e);
    assert forall|id: i32|
        active_task_ids(marked, player_entity_id, traveler_id, excluded).contains(id)
            <==> active_task_ids(tasks, player_entity_id, traveler_id, excluded).contains(id) by {
        if active_task_ids(marked, player_entity_id, traveler_id, excluded).contains(id) {
            let j = choose|j: int|
                0 <= j < marked.len() && is_active_row(#[trigger] marked[j], player_entity_id, traveler_id, excluded)
                    && marked[j].task_id == id;
            assert(is_active_row(tasks[j], player_entity_id, traveler_id, excluded) && tasks[j].task_id == id);
        }
        if active_task_ids(tasks, player_entity_id, traveler_id, excluded).contains(id) {
            let j = choose|j: int|
                0 <= j < tasks.len() && is_active_row(#[trigger] tasks[j], player_entity_id, traveler_id, excluded)
                    && tasks[j].task_id == id;
            assert(is_active_row(marked[j], player_entity_id, traveler_id, excluded) && marked[j].task_id == id);
        }
    }
    assert(active_task_ids(marked, player_entity_id, traveler_id, excluded) =~= active_task_ids(
        tasks,
        player_entity_id,
        traveler_id,
        excluded,
    ));
}

/// Marking a row completed keeps where each entity's row is found.
proof fn lemma_task_index_after_marking(tasks: Seq<TravelerTaskState>, i: int, entity_id: u64)
    requires
        0 <= i < tasks.len(),
    ensures
        task_index(marked_completed(tasks, i), entity_id) == task_index(tasks, entity_id),
{
    let marked = marked_completed(tasks, i);
    lemma_task_index(tasks, entity_id);
    lemma_task_index(marked, entity_id);
    assert forall|j: int| 0 <= j < tasks.len() implies (#[trigger] marked[j]).entity_id == tasks[j].entity_id by {}
    lemma_first_row_unique(tasks, marked, entity_id);
}

proof fn lemma_first_row_unique(tasks: Seq<TravelerTaskState>, other: Seq<TravelerTaskState>, entity_id: u64)
    requires
        tasks.len() == other.len(),
        forall|j: int| 0 <= j < tasks.len() ==> (#[trigger] other[j]).entity_id == tasks[j].entity_id,
    ensures
        task_index(other, entity_id) == task_index(tasks, entity_id),
{
    lemma_task_index(tasks, entity_id);
    lemma_task_index(other, entity_id);
    let a = task_index(tasks, entity_id);
    let b = task_index(other, entity_id);
    if a < b {
        assert(other[a].entity_id == entity_id);
    } else if b < a {
        assert(tasks[b].entity_id == entity_id);
    }
}

/// A turn-in accepted for a player stays accepted once the player acquires
/// more knowledges: blocking knowledges are not checked at turn-in, so
/// knowledge gained after the task was handed out never stands in the way.
pub proof fn law_turn_in_survives_new_knowledge(
    tasks: Seq<TravelerTaskState>,
    task_entity_id: u64,
    actor_id: u64,
    task_desc: Option<TravelerTaskDesc>,
    npc_type: Option<i32>,
    distance: i32,
    npc_desc: Option<NpcDesc>,
    progress: PlayerProgress,
    richer: PlayerProgress,
    reqs: Seq<TravelerTaskKnowledgeRequirementDesc>,
)
    requires
        turn_in_verdict(tasks, task_entity_id, actor_id, task_desc, npc_type, distance, npc_desc, Some(progress), reqs) is Ok,
        forall|k: i32| acquired(progress, k) ==> acquired(richer, k),
    ensures
        turn_in_verdict(tasks, task_entity_id, actor_id, task_desc, npc_type, distance, npc_desc, Some(richer), reqs) is Ok,
{
    let i = task_index(tasks, task_entity_id);
    let req = requirement_for(reqs, tasks[i].task_id, reqs.len());
    if let Some(r) = req {
        if r.required_knowledges@.len() > 0 {
            assert forall|j: int| 0 <= j < r.required_knowledges@.len() implies acquired(
                richer,
                #[trigger] r.required_knowledges@[j],
            ) by {
                assert(acquired(progress, r.required_knowledges@[j]));
            }
        }
    }
}

/// A task is turned in once: after an accepted turn-in has marked its row
/// completed (and no new task was drawn for it), turning the row in again is
/// refused as already turned in, whoever's traveler, knowledge or distance
/// the second request brings.
pub proof fn law_turned_in_task_is_refused_again(
    tasks: Seq<TravelerTaskState>,
    task_entity_id: u64,
    actor_id: u64,
    task_desc: Option<TravelerTaskDesc>,
    npc_type: Option<i32>,
    distance: i32,
    npc_desc: Option<NpcDesc>,
    progress: Option<PlayerProgress>,
    reqs: Seq<TravelerTaskKnowledgeRequirementDesc>,
    again_desc: Option<TravelerTaskDesc>,
    again_npc_type: Option<i32>,
    again_distance: i32,
    again_npc_desc: Option<NpcDesc>,
    again_progress: Option<PlayerProgress>,
)
    requires
        turn_in_verdict(tasks, task_entity_id, actor_id, task_desc, npc_type, distance, npc_desc, progress, reqs) is Ok,
    ensures
        turn_in_verdict(
            marked_completed(tasks, task_index(tasks, task_entity_id)),
            task_entity_id,
            actor_id,
            again_desc,
            again_npc_type,
            again_distance,
            again_npc_desc,
            again_progress,
            reqs,
        ) == Err::<(), TurnInError>(TurnInError::AlreadyTurnedIn),
{
    lemma_task_index(tasks, task_entity_id);
    lemma_task_index_after_marking(tasks, task_index(tasks, task_entity_id), task_entity_id);
}

} // verus!
