use std::collections::HashSet;

use bitcraft_server::entities::EntityIdAllocator;
use bitcraft_server::progress::{PlayerProgress, SkillLevel};
use bitcraft_server::task_completion::{validate_task_turn_in, TurnInError, MAX_TURN_IN_DISTANCE};
use bitcraft_server::traveler_credits::{
    admin_reset_traveler_task_credits, last_tick, next_tick, NpcDesc, TravelerTaskCreditState, TravelerTaskLoopTimer,
    TravelerTaskParameters, TravelerWeeklyCredits, TRAVELER_TASK_RESET_INTERVAL_SECS,
};
use bitcraft_server::traveler_tasks::{
    admin_migrate_traveler_tasks, traveler_task_agent_loop, RerollError, TaskLevelRequirement, TravelerTaskDesc, TravelerTaskKnowledgeRequirementDesc, TravelerTaskState,
};
use spacetimedb::ReducerContext;

fn params(weekly: Option<Vec<TravelerWeeklyCredits>>, reroll_cost: i32, per_npc: i32) -> TravelerTaskParameters {
    TravelerTaskParameters {
        traveler_task_weekly_credits: weekly,
        traveler_task_reroll_credit_cost: reroll_cost,
        traveler_tasks_per_npc: per_npc,
    }
}

fn credit(entity_id: u64, player: u64, traveler: i32, credits: u32, last_reset: i32) -> TravelerTaskCreditState {
    TravelerTaskCreditState { entity_id, player_entity_id: player, traveler_id: traveler, credits, last_reset }
}

fn task_desc(id: i32, skill: i32, min: i32, max: i32) -> TravelerTaskDesc {
    TravelerTaskDesc { id, level_requirement: TaskLevelRequirement { skill_id: skill, min_level: min, max_level: max } }
}

fn player(level: i32, knowledges: Vec<i32>) -> PlayerProgress {
    PlayerProgress { skill_levels: vec![SkillLevel { skill_id: 1, level }], base_level: 0, acquired_knowledges: knowledges }
}

fn task(entity_id: u64, player: u64, traveler: i32, task_id: i32, completed: bool) -> TravelerTaskState {
    TravelerTaskState { entity_id, player_entity_id: player, traveler_id: traveler, task_id, completed }
}

#[test]
fn reset_is_due_after_one_interval() {
    assert!(TravelerTaskCreditState::should_reset(TRAVELER_TASK_RESET_INTERVAL_SECS, 0));
    assert!(!TravelerTaskCreditState::should_reset(TRAVELER_TASK_RESET_INTERVAL_SECS - 1, 0));
    assert!(TravelerTaskCreditState::should_reset(i32::MAX, i32::MIN));
    assert!(!TravelerTaskCreditState::should_reset(i32::MIN, i32::MAX));
}

#[test]
fn weekly_credits_read_the_first_entry() {
    let p = params(
        Some(vec![
            TravelerWeeklyCredits { traveler_type: 3, weekly_task_credits: 5 },
            TravelerWeeklyCredits { traveler_type: 3, weekly_task_credits: 9 },
            TravelerWeeklyCredits { traveler_type: 4, weekly_task_credits: -2 },
        ]),
        1,
        2,
    );
    assert_eq!(TravelerTaskCreditState::weekly_credit_count(Some(&p), 3), 5);
    assert_eq!(TravelerTaskCreditState::weekly_credit_count(Some(&p), 4), 0);
    assert_eq!(TravelerTaskCreditState::weekly_credit_count(Some(&p), 5), 0);
    assert_eq!(TravelerTaskCreditState::weekly_credit_count(None, 3), 0);
}

#[test]
fn reroll_cost_is_never_negative() {
    assert_eq!(TravelerTaskCreditState::reroll_credit_cost(Some(&params(None, 3, 1))), 3);
    assert_eq!(TravelerTaskCreditState::reroll_credit_cost(Some(&params(None, -3, 1))), 0);
    assert_eq!(TravelerTaskCreditState::reroll_credit_cost(None), 0);
}

#[test]
fn consuming_credits_takes_exactly_the_cost() {
    let mut rows = vec![credit(1, 10, 3, 4, 0)];
    assert!(TravelerTaskCreditState::try_consume_credits(&mut rows, 10, 3, 3));
    assert_eq!(rows[0].credits, 1);
    assert!(!TravelerTaskCreditState::try_consume_credits(&mut rows, 10, 3, 2));
    assert_eq!(rows[0].credits, 1);
    assert!(!TravelerTaskCreditState::try_consume_credits(&mut rows, 11, 3, 0));
    assert_eq!(rows, vec![credit(1, 10, 3, 1, 0)]);
}

#[test]
fn refresh_creates_and_resets_rows() {
    let p = params(Some(vec![TravelerWeeklyCredits { traveler_type: 3, weekly_task_credits: 5 }]), 1, 2);
    let npcs = vec![
        NpcDesc { npc_type: 3, task_skill_check: vec![1] },
        NpcDesc { npc_type: 4, task_skill_check: vec![] },
        NpcDesc { npc_type: 5, task_skill_check: vec![2] },
    ];
    let mut rows = vec![credit(1, 10, 5, 0, 0)];
    let mut ids = EntityIdAllocator { next_entity_id: 100 };
    let now = TRAVELER_TASK_RESET_INTERVAL_SECS + 10;
    let refreshed = TravelerTaskCreditState::refresh_credit_rows(&mut rows, &mut ids, &npcs, Some(&p), 10, now, 77);
    assert_eq!(rows.len(), 2);
    assert_eq!(rows[0], credit(1, 10, 5, 0, 77));
    assert_eq!(rows[1], credit(100, 10, 3, 5, 77));
    assert_eq!(ids.next_entity_id, 101);
    let set: HashSet<i32> = refreshed.into_iter().collect();
    assert_eq!(set, HashSet::from([3, 5]));
    let again = TravelerTaskCreditState::refresh_credit_rows(&mut rows, &mut ids, &npcs, Some(&p), 10, now, 77);
    assert!(again.is_empty());
}

#[test]
fn ticks_follow_the_latest_timer() {
    let timers = vec![
        TravelerTaskLoopTimer { scheduled_id: 1, scheduled_time: Some(1000) },
        TravelerTaskLoopTimer { scheduled_id: 5, scheduled_time: Some(2000) },
        TravelerTaskLoopTimer { scheduled_id: 3, scheduled_time: Some(3000) },
    ];
    assert_eq!(next_tick(&timers, 50), 2000);
    assert_eq!(last_tick(&timers, 50), 2000 - TRAVELER_TASK_RESET_INTERVAL_SECS);
    assert_eq!(next_tick(&vec![], 50), 50 + TRAVELER_TASK_RESET_INTERVAL_SECS);
}

#[test]
fn admin_reset_clears_last_reset() {
    let mut rows = vec![credit(1, 10, 3, 4, 99), credit(2, 11, 3, 0, 55)];
    assert!(admin_reset_traveler_task_credits(false, &mut rows).is_err());
    assert_eq!(rows[0].last_reset, 99);
    assert!(admin_reset_traveler_task_credits(true, &mut rows).is_ok());
    assert_eq!(rows, vec![credit(1, 10, 3, 4, 0), credit(2, 11, 3, 0, 0)]);
    for row in &rows {
        assert!(TravelerTaskCreditState::should_reset(TRAVELER_TASK_RESET_INTERVAL_SECS, row.last_reset));
    }
}

#[test]
fn requests_group_tasks_by_traveler_skill() {
    let npcs = vec![NpcDesc { npc_type: 3, task_skill_check: vec![1] }, NpcDesc { npc_type: 4, task_skill_check: vec![2, 1] }];
    let descs = vec![task_desc(10, 1, 0, 5), task_desc(11, 2, 0, 5), task_desc(12, 1, 0, 5)];
    let requests = TravelerTaskState::generate_npc_requests_hashmap(&npcs, &descs);
    assert_eq!(requests.len(), 2);
    assert_eq!(requests[&3].iter().map(|t| t.id).collect::<Vec<_>>(), vec![10, 12]);
    assert_eq!(requests[&4].iter().map(|t| t.id).collect::<Vec<_>>(), vec![10, 11, 12]);
}

#[test]
fn pool_keeps_suitable_tasks() {
    let descs = vec![task_desc(10, 1, 0, 5), task_desc(11, 1, 6, 9), task_desc(12, 1, 0, 5), task_desc(13, 1, 0, 5)];
    let reqs = vec![
        TravelerTaskKnowledgeRequirementDesc { traveler_task_id: 12, required_knowledges: vec![70], blocking_knowledges: vec![] },
        TravelerTaskKnowledgeRequirementDesc { traveler_task_id: 13, required_knowledges: vec![], blocking_knowledges: vec![71] },
    ];
    let excluded: HashSet<i32> = HashSet::new();
    let pool = TravelerTaskState::skill_appropriate_task_pool(&descs, &excluded, &player(3, vec![71]), &reqs);
    assert_eq!(pool, vec![10]);
    let pool2 = TravelerTaskState::skill_appropriate_task_pool(&descs, &HashSet::from([10]), &player(3, vec![70]), &reqs);
    assert_eq!(pool2, vec![12, 13]);
}

#[test]
fn draw_from_a_single_candidate_returns_it() {
    let ctx = ReducerContext::__dummy();
    let npcs = vec![NpcDesc { npc_type: 3, task_skill_check: vec![1] }];
    let descs = vec![task_desc(10, 1, 0, 5), task_desc(11, 1, 0, 5), task_desc(12, 1, 6, 9)];
    let requests = TravelerTaskState::generate_npc_requests_hashmap(&npcs, &descs);
    let profile = player(3, vec![]);
    let id = TravelerTaskState::roll_task_id(ctx.rng(), 3, &requests, &HashSet::from([10]), Some(&profile), &vec![]);
    assert_eq!(id, Some(11));
    for _ in 0..20 {
        let any = TravelerTaskState::roll_task_id(ctx.rng(), 3, &requests, &HashSet::new(), Some(&profile), &vec![]);
        assert!(any == Some(10) || any == Some(11));
    }
    let none = TravelerTaskState::roll_task_id(ctx.rng(), 3, &requests, &HashSet::from([10, 11]), Some(&profile), &vec![]);
    assert_eq!(none, None);
    assert_eq!(TravelerTaskState::roll_task_id(ctx.rng(), 9, &requests, &HashSet::new(), Some(&profile), &vec![]), None);
    assert_eq!(TravelerTaskState::roll_task_id(ctx.rng(), 3, &requests, &HashSet::new(), None, &vec![]), None);
}

#[test]
fn reroll_refusals_and_success() {
    let ctx = ReducerContext::__dummy();
    let npcs = vec![NpcDesc { npc_type: 3, task_skill_check: vec![1] }];
    let descs = vec![task_desc(10, 1, 0, 5), task_desc(11, 1, 0, 5), task_desc(12, 1, 0, 5)];
    let requests = TravelerTaskState::generate_npc_requests_hashmap(&npcs, &descs);
    let profile = player(3, vec![]);
    let p = params(None, 2, 2);
    let mut tasks = vec![task(1, 10, 3, 10, false), task(2, 10, 3, 11, false), task(3, 20, 3, 10, false), task(4, 10, 5, 12, true)];
    let mut credits = vec![credit(50, 10, 3, 1, 0)];

    let missing = TravelerTaskState::player_reroll_traveler_task(&mut tasks, &mut credits, ctx.rng(), 10, 99, Some(&p), &requests, Some(&profile), &vec![]);
    assert_eq!(missing, Err(RerollError::TaskNotFound));
    let not_mine = TravelerTaskState::player_reroll_traveler_task(&mut tasks, &mut credits, ctx.rng(), 10, 3, Some(&p), &requests, Some(&profile), &vec![]);
    assert_eq!(not_mine, Err(RerollError::NotYourTask));
    let done = TravelerTaskState::player_reroll_traveler_task(&mut tasks, &mut credits, ctx.rng(), 10, 4, Some(&p), &requests, Some(&profile), &vec![]);
    assert_eq!(done, Err(RerollError::AlreadyCompleted));
    let poor = TravelerTaskState::player_reroll_traveler_task(&mut tasks, &mut credits, ctx.rng(), 10, 1, Some(&p), &requests, Some(&profile), &vec![]);
    assert_eq!(poor, Err(RerollError::NotEnoughCredits));
    assert_eq!(tasks[0].task_id, 10);

    credits[0].credits = 5;
    let ok = TravelerTaskState::player_reroll_traveler_task(&mut tasks, &mut credits, ctx.rng(), 10, 1, Some(&p), &requests, Some(&profile), &vec![]);
    assert_eq!(ok, Ok(()));
    assert_eq!(tasks[0].task_id, 12);
    assert_eq!(credits[0].credits, 3);

    let veteran = player(9, vec![]);
    let exhausted = TravelerTaskState::player_reroll_traveler_task(&mut tasks, &mut credits, ctx.rng(), 10, 2, Some(&p), &requests, Some(&veteran), &vec![]);
    assert_eq!(exhausted, Err(RerollError::NoReplacementAvailable));
    assert_eq!(tasks[1].task_id, 11);
    assert_eq!(credits[0].credits, 3);
    assert_eq!(RerollError::NotEnoughCredits.message(), "You do not have enough traveler task credits to reroll the task");
}

#[test]
fn initial_tasks_fill_each_traveler() {
    let ctx = ReducerContext::__dummy();
    let npcs = vec![NpcDesc { npc_type: 3, task_skill_check: vec![1] }, NpcDesc { npc_type: 4, task_skill_check: vec![] }];
    let descs = vec![task_desc(10, 1, 0, 5), task_desc(11, 1, 0, 5), task_desc(12, 1, 0, 5)];
    let p = params(None, 1, 2);
    let profile = player(3, vec![]);
    let mut tasks = vec![task(1, 10, 3, 10, false)];
    let mut ids = EntityIdAllocator { next_entity_id: 200 };
    TravelerTaskState::generate_initial_tasks(&mut tasks, &mut ids, ctx.rng(), 10, &npcs, &descs, Some(&p), Some(&profile), &vec![]);
    assert_eq!(tasks.len(), 2);
    assert_eq!(tasks[1].entity_id, 200);
    assert_eq!(tasks[1].traveler_id, 3);
    assert!(tasks[1].task_id == 11 || tasks[1].task_id == 12);
    assert!(!tasks[1].completed);
    assert_eq!(ids.next_entity_id, 201);
}

#[test]
fn turn_in_checks_in_order() {
    let tasks = vec![task(1, 10, 3, 10, false), task(2, 20, 3, 10, false), task(3, 10, 3, 11, true)];
    let desc = task_desc(10, 1, 0, 5);
    let npc = NpcDesc { npc_type: 3, task_skill_check: vec![1] };
    let other_npc = NpcDesc { npc_type: 3, task_skill_check: vec![2] };
    let knows = player(3, vec![70]);
    let ignorant = player(3, vec![]);
    let reqs = vec![TravelerTaskKnowledgeRequirementDesc { traveler_task_id: 10, required_knowledges: vec![70], blocking_knowledges: vec![71] }];
    let near = MAX_TURN_IN_DISTANCE;
    assert_eq!(validate_task_turn_in(&tasks, 9, 10, Some(&desc), Some(3), near, Some(&npc), Some(&knows), &reqs), Err(TurnInError::TaskNotFound));
    assert_eq!(validate_task_turn_in(&tasks, 2, 10, Some(&desc), Some(3), near, Some(&npc), Some(&knows), &reqs), Err(TurnInError::NotYourTask));
    assert_eq!(validate_task_turn_in(&tasks, 3, 10, Some(&desc), Some(3), near, Some(&npc), Some(&knows), &reqs), Err(TurnInError::AlreadyTurnedIn));
    assert_eq!(validate_task_turn_in(&tasks, 1, 10, None, Some(3), near, Some(&npc), Some(&knows), &reqs), Err(TurnInError::UnknownTaskKind));
    assert_eq!(validate_task_turn_in(&tasks, 1, 10, Some(&desc), None, near, Some(&npc), Some(&knows), &reqs), Err(TurnInError::TravelerNotFound));
    assert_eq!(validate_task_turn_in(&tasks, 1, 10, Some(&desc), Some(3), near + 1, Some(&npc), Some(&knows), &reqs), Err(TurnInError::TooFar));
    assert_eq!(validate_task_turn_in(&tasks, 1, 10, Some(&desc), Some(4), near, Some(&npc), Some(&knows), &reqs), Err(TurnInError::WrongTraveler));
    assert_eq!(validate_task_turn_in(&tasks, 1, 10, Some(&desc), Some(3), near, Some(&other_npc), Some(&knows), &reqs), Err(TurnInError::TaskNotOffered));
    assert_eq!(validate_task_turn_in(&tasks, 1, 10, Some(&desc), Some(3), near, Some(&npc), Some(&ignorant), &reqs), Err(TurnInError::MissingKnowledge));
    assert_eq!(validate_task_turn_in(&tasks, 1, 10, Some(&desc), Some(3), near, Some(&npc), Some(&knows), &reqs), Ok(()));
    let blocked_too = player(3, vec![70, 71]);
    assert_eq!(validate_task_turn_in(&tasks, 1, 10, Some(&desc), Some(3), near, Some(&npc), Some(&blocked_too), &reqs), Ok(()));
    assert_eq!(TurnInError::TooFar.message(), "Too far");
}

#[test]
fn completing_a_task_replaces_it_for_one_credit() {
    let ctx = ReducerContext::__dummy();
    let npcs = vec![NpcDesc { npc_type: 3, task_skill_check: vec![1] }];
    let descs = vec![task_desc(10, 1, 0, 5), task_desc(11, 1, 0, 5)];
    let requests = TravelerTaskState::generate_npc_requests_hashmap(&npcs, &descs);
    let profile = player(3, vec![]);
    let mut tasks = vec![task(1, 10, 3, 10, false)];
    let mut credits = vec![credit(50, 10, 3, 0, 0)];
    let replaced = TravelerTaskState::complete_turned_in_task(&mut tasks, &mut credits, ctx.rng(), 10, 1, &requests, Some(&profile), &vec![]);
    assert!(!replaced);
    assert_eq!(tasks[0], task(1, 10, 3, 10, true));
    assert_eq!(credits[0].credits, 0);

    let mut tasks = vec![task(1, 10, 3, 10, false)];
    let mut credits = vec![credit(50, 10, 3, 2, 0)];
    let replaced = TravelerTaskState::complete_turned_in_task(&mut tasks, &mut credits, ctx.rng(), 10, 1, &requests, Some(&profile), &vec![]);
    assert!(replaced);
    assert_eq!(tasks[0], task(1, 10, 3, 11, false));
    assert_eq!(credits[0].credits, 1);
}

#[test]
fn retry_replaces_completed_tasks_of_refreshed_travelers() {
    let ctx = ReducerContext::__dummy();
    let npcs = vec![NpcDesc { npc_type: 3, task_skill_check: vec![1] }];
    let descs = vec![task_desc(10, 1, 0, 5), task_desc(11, 1, 0, 5)];
    let profile = player(3, vec![]);
    let mut tasks = vec![task(1, 10, 3, 10, true), task(2, 10, 4, 10, true)];
    let mut credits = vec![credit(50, 10, 3, 0, 0)];
    TravelerTaskState::retry_completed_task_replacements(&mut tasks, &mut credits, ctx.rng(), 10, &vec![3], &npcs, &descs, Some(&profile), &vec![]);
    assert_eq!(tasks[0], task(1, 10, 3, 11, false));
    assert_eq!(tasks[1], task(2, 10, 4, 10, true));
    assert_eq!(credits[0].credits, 0);
}

#[test]
fn refresh_retries_completed_tasks_of_refreshed_travelers() {
    let ctx = ReducerContext::__dummy();
    let p = params(Some(vec![TravelerWeeklyCredits { traveler_type: 3, weekly_task_credits: 4 }]), 1, 2);
    let npcs = vec![NpcDesc { npc_type: 3, task_skill_check: vec![1] }];
    let descs = vec![task_desc(10, 1, 0, 5), task_desc(11, 1, 0, 5)];
    let profile = player(3, vec![]);
    let mut rows = vec![credit(1, 10, 3, 0, 0)];
    let mut tasks = vec![task(5, 10, 3, 10, true)];
    let mut ids = EntityIdAllocator { next_entity_id: 100 };
    let now = TRAVELER_TASK_RESET_INTERVAL_SECS;
    let any = TravelerTaskCreditState::refresh_player_credits(
        &mut rows, &mut tasks, &mut ids, ctx.rng(), &npcs, &descs, Some(&p), 10, now, now, Some(&profile), &vec![],
    );
    assert!(any);
    assert_eq!(rows, vec![credit(1, 10, 3, 4, now)]);
    assert_eq!(tasks, vec![task(5, 10, 3, 11, false)]);
    let again = TravelerTaskCreditState::refresh_player_credits(
        &mut rows, &mut tasks, &mut ids, ctx.rng(), &npcs, &descs, Some(&p), 10, now, now, Some(&profile), &vec![],
    );
    assert!(!again);
    assert_eq!(ids.next_entity_id, 100);
}

#[test]
fn agent_tick_counts_refreshed_players() {
    let ctx = ReducerContext::__dummy();
    let p = params(Some(vec![TravelerWeeklyCredits { traveler_type: 3, weekly_task_credits: 4 }]), 1, 2);
    let npcs = vec![NpcDesc { npc_type: 3, task_skill_check: vec![1] }];
    let descs = vec![task_desc(10, 1, 0, 5)];
    let now = TRAVELER_TASK_RESET_INTERVAL_SECS;
    let mut rows = vec![credit(1, 10, 3, 0, now)];
    let mut tasks = vec![];
    let mut ids = EntityIdAllocator { next_entity_id: 100 };
    let count = traveler_task_agent_loop(
        &mut rows, &mut tasks, &mut ids, ctx.rng(), &vec![10, 20], &vec![None, None], &npcs, &descs, Some(&p), now, now, &vec![],
    );
    assert_eq!(count, 1);
    assert_eq!(rows, vec![credit(1, 10, 3, 0, now), credit(100, 20, 3, 4, now)]);
    assert_eq!(ids.next_entity_id, 101);
}

#[test]
fn migration_hands_every_player_initial_tasks() {
    let ctx = ReducerContext::__dummy();
    let npcs = vec![NpcDesc { npc_type: 3, task_skill_check: vec![1] }];
    let descs = vec![task_desc(10, 1, 0, 5), task_desc(11, 1, 0, 5)];
    let p = params(None, 1, 1);
    let mut tasks = vec![task(1, 10, 3, 10, false)];
    let mut ids = EntityIdAllocator { next_entity_id: 300 };
    let refused = admin_migrate_traveler_tasks(false, &mut tasks, &mut ids, ctx.rng(), &vec![10, 20], &vec![None, None], &npcs, &descs, Some(&p), &vec![]);
    assert!(refused.is_err());
    assert_eq!(tasks.len(), 1);
    let profile = player(3, vec![]);
    let done = admin_migrate_traveler_tasks(
        true, &mut tasks, &mut ids, ctx.rng(), &vec![10, 20], &vec![Some(profile.clone()), Some(profile)], &npcs, &descs, Some(&p), &vec![],
    );
    assert_eq!(done, Ok(2));
    assert_eq!(tasks.len(), 2);
    assert_eq!(tasks[1].player_entity_id, 20);
    assert_eq!(tasks[1].entity_id, 300);
    assert_eq!(ids.next_entity_id, 301);
}

#[test]
fn retry_keeps_a_completed_task_when_nothing_else_can_be_drawn() {
    let ctx = ReducerContext::__dummy();
    let npcs = vec![NpcDesc { npc_type: 3, task_skill_check: vec![1] }];
    let descs = vec![task_desc(10, 1, 0, 5)];
    let profile = player(3, vec![]);
    let mut tasks = vec![task(1, 10, 3, 10, true)];
    let mut credits = vec![credit(50, 10, 3, 0, 0)];
    TravelerTaskState::retry_completed_task_replacements(&mut tasks, &mut credits, ctx.rng(), 10, &vec![3], &npcs, &descs, Some(&profile), &vec![]);
    assert_eq!(tasks, vec![task(1, 10, 3, 10, true)]);
}

#[test]
fn initial_tasks_stop_when_the_draw_runs_out() {
    let ctx = ReducerContext::__dummy();
    let npcs = vec![NpcDesc { npc_type: 3, task_skill_check: vec![1] }, NpcDesc { npc_type: 4, task_skill_check: vec![0] }];
    let descs = vec![task_desc(10, 1, 0, 5), task_desc(11, 1, 0, 5), task_desc(12, 1, 9, 9)];
    let p = params(None, 1, 5);
    let profile = player(3, vec![]);
    let mut tasks = vec![];
    let mut ids = EntityIdAllocator { next_entity_id: 7 };
    TravelerTaskState::generate_initial_tasks(&mut tasks, &mut ids, ctx.rng(), 10, &npcs, &descs, Some(&p), Some(&profile), &vec![]);
    assert_eq!(tasks.len(), 2);
    let ids_held: HashSet<i32> = tasks.iter().map(|t| t.task_id).collect();
    assert_eq!(ids_held, [10, 11].into_iter().collect());
    assert!(tasks.iter().all(|t| t.traveler_id == 3 && t.player_entity_id == 10 && !t.completed));
    assert_eq!(ids.next_entity_id, 9);
}

#[test]
fn a_turned_in_task_is_refused_again() {
    let ctx = ReducerContext::__dummy();
    let npc = NpcDesc { npc_type: 3, task_skill_check: vec![1] };
    let npcs = vec![npc.clone()];
    let descs = vec![task_desc(10, 1, 0, 5)];
    let requests = TravelerTaskState::generate_npc_requests_hashmap(&npcs, &descs);
    let profile = player(3, vec![]);
    let mut tasks = vec![task(1, 10, 3, 10, false)];
    let mut credits = vec![credit(50, 10, 3, 5, 0)];
    let near = MAX_TURN_IN_DISTANCE;
    assert_eq!(validate_task_turn_in(&tasks, 1, 10, Some(&descs[0]), Some(3), near, Some(&npc), Some(&profile), &vec![]), Ok(()));
    let replaced = TravelerTaskState::complete_turned_in_task(&mut tasks, &mut credits, ctx.rng(), 10, 1, &requests, Some(&profile), &vec![]);
    assert!(!replaced);
    assert_eq!(
        validate_task_turn_in(&tasks, 1, 10, Some(&descs[0]), Some(3), near, Some(&npc), Some(&profile), &vec![]),
        Err(TurnInError::AlreadyTurnedIn)
    );
}

#[test]
fn agent_tick_retries_completed_tasks_of_refreshed_travelers() {
    let ctx = ReducerContext::__dummy();
    let p = params(Some(vec![TravelerWeeklyCredits { traveler_type: 3, weekly_task_credits: 4 }]), 1, 2);
    let npcs = vec![NpcDesc { npc_type: 3, task_skill_check: vec![1] }];
    let descs = vec![task_desc(10, 1, 0, 5), task_desc(11, 1, 0, 5)];
    let now = TRAVELER_TASK_RESET_INTERVAL_SECS;
    let mut rows = vec![credit(1, 10, 3, 0, 0)];
    let mut tasks = vec![task(5, 10, 3, 10, true), task(6, 20, 3, 10, true)];
    let mut ids = EntityIdAllocator { next_entity_id: 100 };
    let count = traveler_task_agent_loop(
        &mut rows, &mut tasks, &mut ids, ctx.rng(), &vec![10], &vec![Some(player(3, vec![]))], &npcs, &descs, Some(&p), now, now, &vec![],
    );
    assert_eq!(count, 1);
    assert_eq!(tasks, vec![task(5, 10, 3, 11, false), task(6, 20, 3, 10, true)]);
}

