//! Traveler task credits: the weekly allowance per traveler, its reset, and
//! spending credits on task rerolls and replacements.
use vstd::prelude::*;

use crate::admin::AdminError;
use crate::entities::EntityIdAllocator;

verus! {

/// The parameters behind an optional reference.
pub open spec fn params_value(params: Option<&TravelerTaskParameters>) -> Option<TravelerTaskParameters> {
    match params {
        Some(p) => Some(*p),
        None => None,
    }
}

/// Seconds between two weekly resets of traveler task credits.
pub const TRAVELER_TASK_RESET_INTERVAL_SECS: i32 = 604800;

/// How many task credits a player has left with one traveler.
#[derive(Clone, Copy, Debug, PartialEq, Eq)]
pub struct TravelerTaskCreditState {
    pub entity_id: u64,
    pub player_entity_id: u64,
    pub traveler_id: i32,
    pub credits: u32,
    pub last_reset: i32,
}

/// The weekly allowance of task credits of one traveler type.
#[derive(Clone, Copy, Debug, PartialEq, Eq)]
pub struct TravelerWeeklyCredits {
    pub traveler_type: i32,
    pub weekly_task_credits: i32,
}

/// The game parameters that traveler tasks read.
#[derive(Clone, Debug)]
pub struct TravelerTaskParameters {
    pub traveler_task_weekly_credits: Option<Vec<TravelerWeeklyCredits>>,
    pub traveler_task_reroll_credit_cost: i32,
    pub traveler_tasks_per_npc: i32,
}

/// A traveler: its type and the skills of the tasks it hands out.
#[derive(Clone, Debug)]
pub struct NpcDesc {
    pub npc_type: i32,
    pub task_skill_check: Vec<i32>,
}

/// A scheduled run of the traveler task loop; `scheduled_time` is the unix
/// second it is scheduled at, when it is scheduled at a point in time.
#[derive(Clone, Copy, Debug, PartialEq, Eq)]
pub struct TravelerTaskLoopTimer {
    pub scheduled_id: u64,
    pub scheduled_time: Option<i32>,
}

pub open spec fn max0(x: int) -> int {
    if x < 0 {
        0
    } else {
        x
    }
}

/// `now - last_reset`, clamped to the range of `i32`.
pub open spec fn saturating_diff(now: i32, last_reset: i32) -> int {
    let d = now - last_reset;
    if d > i32::MAX {
        i32::MAX as int
    } else if d < i32::MIN {
        i32::MIN as int
    } else {
        d
    }
}

/// The first weekly allowance entry for `traveler_id` among the first `n`.
pub open spec fn weekly_entry(entries: Seq<TravelerWeeklyCredits>, traveler_id: i32, n: nat) -> Option<TravelerWeeklyCredits>
    decreases n,
{
    if n == 0 {
        None
    } else {
        match weekly_entry(entries, traveler_id, (n - 1) as nat) {
            Some(e) => Some(e),
            None => if entries[n - 1].traveler_type == traveler_id {
                Some(entries[n - 1])
            } else {
                None
            },
        }
    }
}

/// The weekly credits of a traveler: its first allowance entry, negative
/// values read as 0, and 0 when there are no parameters or no entry.
pub open spec fn spec_weekly_credit_count(params: Option<TravelerTaskParameters>, traveler_id: i32) -> u32 {
    match params {
        Some(p) => match p.traveler_task_weekly_credits {
            Some(entries) => match weekly_entry(entries@, traveler_id, entries@.len()) {
                Some(e) => max0(e.weekly_task_credits as int) as u32,
                None => 0,
            },
            None => 0,
        },
        None => 0,
    }
}

/// The credit cost of a reroll: the parameter, negative values read as 0,
/// and 0 when there are no parameters.
pub open spec fn spec_reroll_credit_cost(params: Option<TravelerTaskParameters>) -> u32 {
    match params {
        Some(p) => max0(p.traveler_task_reroll_credit_cost as int) as u32,
        None => 0,
    }
}

/// The credit row `row` is the player's row for the traveler.
pub open spec fn is_credit_row(row: TravelerTaskCreditState, player_entity_id: u64, traveler_id: i32) -> bool {
    row.player_entity_id == player_entity_id && row.traveler_id == traveler_id
}

/// `i` is the first credit row of the player for the traveler.
pub open spec fn first_credit_row(
    rows: Seq<TravelerTaskCreditState>,
    player_entity_id: u64,
    traveler_id: i32,
    i: int,
) -> bool {
    &&& 0 <= i < rows.len()
    &&& is_credit_row(rows[i], player_entity_id, traveler_id)
    &&& forall|j: int| 0 <= j < i ==> !is_credit_row(#[trigger] rows[j], player_entity_id, traveler_id)
}

/// The player has a credit row for the traveler.
pub open spec fn has_credit_row(rows: Seq<TravelerTaskCreditState>, player_entity_id: u64, traveler_id: i32) -> bool {
    exists|i: int| 0 <= i < rows.len() && is_credit_row(#[trigger] rows[i], player_entity_id, traveler_id)
}

/// Index of the first credit row of the player for the traveler (or the
/// length of `rows` when there is none).
pub open spec fn credit_row_index(rows: Seq<TravelerTaskCreditState>, player_entity_id: u64, traveler_id: i32, n: nat) -> int
    decreases n,
{
    if n == 0 {
        rows.len() as int
    } else {
        let prev = credit_row_index(rows, player_entity_id, traveler_id, (n - 1) as nat);
        if prev < n - 1 {
            prev
        } else if is_credit_row(rows[n - 1], player_entity_id, traveler_id) {
            n - 1
        } else {
            rows.len() as int
        }
    }
}

/// What spending `cost` credits of the player with the traveler leaves:
/// `None` when the player has no row or fewer credits than `cost`.
pub open spec fn spend_credits(
    rows: Seq<TravelerTaskCreditState>,
    player_entity_id: u64,
    traveler_id: i32,
    cost: u32,
) -> Option<Seq<TravelerTaskCreditState>> {
    let i = credit_row_index(rows, player_entity_id, traveler_id, rows.len());
    if i < rows.len() && rows[i].credits >= cost {
        Some(rows.update(i, TravelerTaskCreditState { credits: (rows[i].credits - cost) as u32, ..rows[i] }))
    } else {
        None
    }
}

/// The state that refreshing one traveler's credits works on: the credit
/// rows, the entity counter, and the travelers refreshed so far.
pub struct CreditRefresh {
    pub rows: Seq<TravelerTaskCreditState>,
    pub next_entity_id: u64,
    pub refreshed: Set<i32>,
}

/// Refreshing the credits of the player with one traveler: an existing row
/// that is due for a reset gets the weekly allowance and `last_tick`; a
/// missing row is created with them; either way the traveler counts as
/// refreshed. Travelers that hand out no task are skipped.
pub open spec fn refresh_one(
    state: CreditRefresh,
    npc_type: i32,
    hands_out_tasks: bool,
    params: Option<TravelerTaskParameters>,
    player_entity_id: u64,
    now: i32,
    last_tick: i32,
) -> CreditRefresh {
    if !hands_out_tasks {
        state
    } else {
        let i = credit_row_index(state.rows, player_entity_id, npc_type, state.rows.len());
        let weekly = spec_weekly_credit_count(params, npc_type);
        if i < state.rows.len() {
            if saturating_diff(now, state.rows[i].last_reset) >= TRAVELER_TASK_RESET_INTERVAL_SECS {
                CreditRefresh {
                    rows: state.rows.update(
                        i,
                        TravelerTaskCreditState { credits: weekly, last_reset: last_tick, ..state.rows[i] },
                    ),
                    next_entity_id: state.next_entity_id,
                    refreshed: state.refreshed.insert(npc_type),
                }
            } else {
                state
            }
        } else {
            CreditRefresh {
                rows: state.rows.push(
                    TravelerTaskCreditState {
                        entity_id: state.next_entity_id,
                        player_entity_id,
                        traveler_id: npc_type,
                        credits: weekly,
                        last_reset: last_tick,
                    },
                ),
                next_entity_id: (state.next_entity_id + 1) as u64,
                refreshed: state.refreshed.insert(npc_type),
            }
        }
    }
}

/// Refreshing the player's credits with the first `n` travelers, in order.
pub open spec fn refresh_credits(
    start: CreditRefresh,
    npcs: Seq<NpcDesc>,
    params: Option<TravelerTaskParameters>,
    player_entity_id: u64,
    now: i32,
    last_tick: i32,
    n: nat,
) -> CreditRefresh
    decreases n,
{
    if n == 0 {
        start
    } else {
        let prev = refresh_credits(start, npcs, params, player_entity_id, now, last_tick, (n - 1) as nat);
        refresh_one(
            prev,
            npcs[n - 1].npc_type,
            npcs[n - 1].task_skill_check@.len() > 0,
            params,
            player_entity_id,
            now,
            last_tick,
        )
    }
}

/// The timer of the latest scheduled loop run: the one with the greatest
/// scheduled id (the last such one in `timers`), among the first `n`.
pub open spec fn latest_timer(timers: Seq<TravelerTaskLoopTimer>, n: nat) -> Option<TravelerTaskLoopTimer>
    decreases n,
{
    if n == 0 {
        None
    } else {
        match latest_timer(timers, (n - 1) as nat) {
            Some(best) => if timers[n - 1].scheduled_id >= best.scheduled_id {
                Some(timers[n - 1])
            } else {
                Some(best)
            },
            None => Some(timers[n - 1]),
        }
    }
}

/// The unix second of the next weekly reset: when the latest scheduled run is
/// scheduled at a point in time, that time; otherwise one interval from now.
pub open spec fn spec_next_tick(timers: Seq<TravelerTaskLoopTimer>, now: i32) -> int {
    match latest_timer(timers, timers.len()) {
        Some(timer) => match timer.scheduled_time {
            Some(t) => t as int,
            None => now + TRAVELER_TASK_RESET_INTERVAL_SECS,
        },
        None => now + TRAVELER_TASK_RESET_INTERVAL_SECS,
    }
}

proof fn lemma_credit_row_index(rows: Seq<TravelerTaskCreditState>, player_entity_id: u64, traveler_id: i32, n: nat)
    requires
        n <= rows.len(),
    ensures
        ({
            let i = credit_row_index(rows, player_entity_id, traveler_id, n);
            &&& (i < n ==> first_credit_row(rows, player_entity_id, traveler_id, i))
            &&& (i >= n ==> i == rows.len() && forall|j: int|
                0 <= j < n ==> !is_credit_row(#[trigger] rows[j], player_entity_id, traveler_id))
        }),
    decreases n,
{
    if n > 0 {
        lemma_credit_row_index(rows, player_entity_id, traveler_id, (n - 1) as nat);
    }
}

/// The first credit row of the player for the traveler is the one that
/// `credit_row_index` names.
pub proof fn lemma_credit_row_index_is_first(rows: Seq<TravelerTaskCreditState>, player_entity_id: u64, traveler_id: i32)
    ensures
        ({
            let i = credit_row_index(rows, player_entity_id, traveler_id, rows.len());
            &&& (i < rows.len() <==> has_credit_row(rows, player_entity_id, traveler_id))
            &&& (i < rows.len() ==> first_credit_row(rows, player_entity_id, traveler_id, i))
            &&& (i >= rows.len() ==> i == rows.len())
        }),
{
    lemma_credit_row_index(rows, player_entity_id, traveler_id, rows.len());
}

impl TravelerTaskCreditState {
    /// Whether a reset is due: at least one interval has passed since the
    /// last reset (the difference is clamped to the range of `i32`).
    pub fn should_reset(now: i32, last_reset: i32) -> (due: bool)
        ensures
            due == (saturating_diff(now, last_reset) >= TRAVELER_TASK_RESET_INTERVAL_SECS),
    {
        let d: i64 = now as i64 - last_reset as i64;
        let clamped: i64 = if d > i32::MAX as i64 {
            i32::MAX as i64
        } else if d < i32::MIN as i64 {
            i32::MIN as i64
        } else {
            d
        };
        clamped >= TRAVELER_TASK_RESET_INTERVAL_SECS as i64
    }

    /// The weekly task credits of a traveler.
    pub fn weekly_credit_count(params: Option<&TravelerTaskParameters>, traveler_id: i32) -> (credits: u32)
        ensures
            credits == spec_weekly_credit_count(
                params_value(params),
                traveler_id,
            ),
    {
        match params {
            None => 0,
            Some(p) => match &p.traveler_task_weekly_credits {
                None => 0,
                Some(entries) => {
                    let mut i: usize = 0;
                    while i < entries.len()
                        invariant
                            params == Some(p),
                            p.traveler_task_weekly_credits == Some(*entries),
                            i <= entries@.len(),
                            weekly_entry(entries@, traveler_id, i as nat) is None,
                        decreases entries@.len() - i,
                    {
                        if entries[i].traveler_type == traveler_id {
                            let w = entries[i].weekly_task_credits;
                            proof {
                                lemma_weekly_entry_stays(entries@, traveler_id, (i + 1) as nat, entries@.len());
                                assert(weekly_entry(entries@, traveler_id, entries@.len()) == Some(entries@[i as int]));
                            }
                            return if w < 0 {
                                0
                            } else {
                                w as u32
                            };
                        }
                        i = i + 1;
                    }
                    0
                },
            },
        }
    }

    /// The credit cost of rerolling a task.
    pub fn reroll_credit_cost(params: Option<&TravelerTaskParameters>) -> (cost: u32)
        ensures
            cost == spec_reroll_credit_cost(
                params_value(params),
            ),
    {
        match params {
            Some(p) => if p.traveler_task_reroll_credit_cost < 0 {
                0
            } else {
                p.traveler_task_reroll_credit_cost as u32
            },
            None => 0,
        }
    }

    /// Spends `cost` credits of the player with the traveler. Fails, changing
    /// nothing, when the player has no credit row for the traveler or fewer
    /// credits than `cost`.
    pub fn try_consume_credits(
        rows: &mut Vec<TravelerTaskCreditState>,
        player_entity_id: u64,
        traveler_id: i32,
        cost: u32,
    ) -> (spent: bool)
        ensures
            spent == spend_credits(old(rows)@, player_entity_id, traveler_id, cost) is Some,
            spent ==> final(rows)@ == spend_credits(old(rows)@, player_entity_id, traveler_id, cost)->0,
            !spent ==> final(rows)@ == old(rows)@,
    {
        let i = find_credit_row(rows, player_entity_id, traveler_id);
        if i >= rows.len() {
            return false;
        }
        let row = rows[i];
        if row.credits < cost {
            return false;
        }
        rows.set(i, TravelerTaskCreditState { credits: row.credits - cost, ..row });
        true
    }

    /// Refreshes the player's credit rows with every traveler that hands out
    /// tasks, in order: a row due for a reset gets the weekly allowance and
    /// `last_tick`, a missing row is created with them (its entity id drawn
    /// from `ids`). Returns the travelers whose credits were refreshed.
    pub fn refresh_credit_rows(
        rows: &mut Vec<TravelerTaskCreditState>,
        ids: &mut EntityIdAllocator,
        npcs: &Vec<NpcDesc>,
        params: Option<&TravelerTaskParameters>,
        player_entity_id: u64,
        now: i32,
        last_tick: i32,
    ) -> (refreshed: Vec<i32>)
        requires
            old(ids).next_entity_id + npcs@.len() <= u64::MAX,
        ensures
            ({
                let result = refresh_credits(
                    CreditRefresh { rows: old(rows)@, next_entity_id: old(ids).next_entity_id, refreshed: Set::empty() },
                    npcs@,
                    params_value(params),
                    player_entity_id,
                    now,
                    last_tick,
                    npcs@.len(),
                );
                &&& final(rows)@ == result.rows
                &&& final(ids).next_entity_id == result.next_entity_id
                &&& refreshed@.to_set() == result.refreshed
                &&& refreshed@.no_duplicates()
            }),
    {
        let ghost sparams = params_value(params);
        let ghost start = CreditRefresh { rows: rows@, next_entity_id: ids.next_entity_id, refreshed: Set::empty() };
        let ghost start_id = ids.next_entity_id;
        let mut refreshed: Vec<i32> = Vec::new();
        proof {
            assert(refreshed@.to_set() =~= Set::<i32>::empty());
        }
        for k in 0..npcs.len()
            invariant
                start.next_entity_id == start_id,
                start_id + npcs@.len() <= u64::MAX,
                sparams == params_value(params),
                ({
                    let cur = refresh_credits(start, npcs@, sparams, player_entity_id, now, last_tick, k as nat);
                    &&& rows@ == cur.rows
                    &&& ids.next_entity_id == cur.next_entity_id
                    &&& refreshed@.to_set() == cur.refreshed
                    &&& refreshed@.no_duplicates()
                    &&& cur.next_entity_id <= start_id + k
                }),
        {
            let npc = &npcs[k];
            if npc.task_skill_check.len() > 0 {
                let npc_type = npc.npc_type;
                let i = find_credit_row(rows, player_entity_id, npc_type);
                let weekly = Self::weekly_credit_count(params, npc_type);
                let mut refresh = false;
                if i < rows.len() {
                    let row = rows[i];
                    if Self::should_reset(now, row.last_reset) {
                        rows.set(i, TravelerTaskCreditState { credits: weekly, last_reset: last_tick, ..row });
                        refresh = true;
                    }
                } else {
                    let entity_id = ids.create_entity();
                    rows.push(
                        TravelerTaskCreditState {
                            entity_id,
                            player_entity_id,
                            traveler_id: npc_type,
                            credits: weekly,
                            last_reset: last_tick,
                        },
                    );
                    refresh = true;
                }
                if refresh {
                    let ghost before = refreshed@;
                    if !contains_id(&refreshed, npc_type) {
                        refreshed.push(npc_type);
                        proof {
                            assert(refreshed@ =~= before + seq![npc_type]);
                            Seq::lemma_to_set_insert_commutes(before, npc_type);
                            assert(refreshed@.to_set() =~= before.to_set().insert(npc_type));
                            assert(refreshed@.no_duplicates());
                        }
                    } else {
                        proof {
                            assert(before.to_set().contains(npc_type));
                            assert(before.to_set().insert(npc_type) =~= before.to_set());
                        }
                    }
                }
            }
        }
        refreshed
    }
}

/// Index of the first credit row of the player for the traveler, or the
/// number of rows when there is none.
pub fn find_credit_row(rows: &Vec<TravelerTaskCreditState>, player_entity_id: u64, traveler_id: i32) -> (i: usize)
    ensures
        i == credit_row_index(rows@, player_entity_id, traveler_id, rows@.len()),
{
    let mut i: usize = 0;
    while i < rows.len()
        invariant
            i <= rows@.len(),
            credit_row_index(rows@, player_entity_id, traveler_id, i as nat) == rows@.len(),
        decreases rows@.len() - i,
    {
        if rows[i].player_entity_id == player_entity_id && rows[i].traveler_id == traveler_id {
            proof {
                lemma_credit_row_index_stays(rows@, player_entity_id, traveler_id, (i + 1) as nat, rows@.len());
            }
            return i;
        }
        i = i + 1;
    }
    i
}

/// Whether `id` occurs in `ids`.
pub fn contains_id(ids: &Vec<i32>, id: i32) -> (found: bool)
    ensures
        found == ids@.contains(id),
{
    for i in 0..ids.len()
        invariant
            forall|j: int| 0 <= j < i ==> ids@[j] != id,
    {
        if ids[i] == id {
            return true;
        }
    }
    false
}

proof fn lemma_weekly_entry_stays(entries: Seq<TravelerWeeklyCredits>, traveler_id: i32, n: nat, m: nat)
    requires
        n <= m <= entries.len(),
        n > 0,
        weekly_entry(entries, traveler_id, (n - 1) as nat) is None,
        entries[n - 1].traveler_type == traveler_id,
    ensures
        weekly_entry(entries, traveler_id, m) == Some(entries[n - 1]),
    decreases m - n,
{
    if m > n {
        lemma_weekly_entry_stays(entries, traveler_id, n, (m - 1) as nat);
    }
}

proof fn lemma_credit_row_index_stays(
    rows: Seq<TravelerTaskCreditState>,
    player_entity_id: u64,
    traveler_id: i32,
    n: nat,
    m: nat,
)
    requires
        0 < n <= m <= rows.len(),
        credit_row_index(rows, player_entity_id, traveler_id, (n - 1) as nat) == rows.len(),
        is_credit_row(rows[n - 1], player_entity_id, traveler_id),
    ensures
        credit_row_index(rows, player_entity_id, traveler_id, m) == n - 1,
    decreases m - n,
{
    if m > n {
        lemma_credit_row_index_stays(rows, player_entity_id, traveler_id, n, (m - 1) as nat);
    }
}

/// The latest scheduled run of the traveler task loop: the timer with the
/// greatest scheduled id (the last such one).
pub fn get_latest_timer(timers: &Vec<TravelerTaskLoopTimer>) -> (latest: Option<TravelerTaskLoopTimer>)
    ensures
        latest == latest_timer(timers@, timers@.len()),
{
    let mut best: Option<TravelerTaskLoopTimer> = None;
    for i in 0..timers.len()
        invariant
            best == latest_timer(timers@, i as nat),
    {
        let t = timers[i];
        best = match best {
            Some(b) => if t.scheduled_id >= b.scheduled_id {
                Some(t)
            } else {
                Some(b)
            },
            None => Some(t),
        };
    }
    best
}

/// The unix second of the next weekly credit reset.
pub fn next_tick(timers: &Vec<TravelerTaskLoopTimer>, now: i32) -> (tick: i32)
    requires
        now <= i32::MAX - TRAVELER_TASK_RESET_INTERVAL_SECS,
    ensures
        tick == spec_next_tick(timers@, now),
{
    if let Some(timer) = get_latest_timer(timers) {
        if let Some(t) = timer.scheduled_time {
            return t;
        }
    }
    now + TRAVELER_TASK_RESET_INTERVAL_SECS
}

/// The unix second of the last weekly credit reset: one interval before the
/// next one.
pub fn last_tick(timers: &Vec<TravelerTaskLoopTimer>, now: i32) -> (tick: i32)
    requires
        now <= i32::MAX - TRAVELER_TASK_RESET_INTERVAL_SECS,
        spec_next_tick(timers@, now) - TRAVELER_TASK_RESET_INTERVAL_SECS >= i32::MIN,
    ensures
        tick == spec_next_tick(timers@, now) - TRAVELER_TASK_RESET_INTERVAL_SECS,
{
    next_tick(timers, now) - TRAVELER_TASK_RESET_INTERVAL_SECS
}


// ---------------------------------------------------------------------------
// Laws
// ---------------------------------------------------------------------------

proof fn lemma_refresh_one_rows(
    state: CreditRefresh,
    npc_type: i32,
    hands_out: bool,
    params: Option<TravelerTaskParameters>,
    player_entity_id: u64,
    now: i32,
    last_tick: i32,
    p: u64,
    t: i32,
)
    ensures
        ({
            let next = refresh_one(state, npc_type, hands_out, params, player_entity_id, now, last_tick);
            &&& has_credit_row(state.rows, p, t) ==> has_credit_row(next.rows, p, t)
            &&& hands_out ==> has_credit_row(next.rows, player_entity_id, npc_type)
        }),
{
    let next = refresh_one(state, npc_type, hands_out, params, player_entity_id, now, last_tick);
    lemma_credit_row_index_is_first(state.rows, player_entity_id, npc_type);
    let i = credit_row_index(state.rows, player_entity_id, npc_type, state.rows.len());
    if has_credit_row(state.rows, p, t) {
        let j = choose|j: int| 0 <= j < state.rows.len() && is_credit_row(#[trigger] state.rows[j], p, t);
        assert(is_credit_row(next.rows[j], p, t));
    }
    if hands_out {
        if i < state.rows.len() {
            assert(is_credit_row(next.rows[i], player_entity_id, npc_type));
        } else {
            assert(is_credit_row(next.rows[state.rows.len() as int], player_entity_id, npc_type));
        }
    }
}

proof fn lemma_refresh_rows(
    start: CreditRefresh,
    npcs: Seq<NpcDesc>,
    params: Option<TravelerTaskParameters>,
    player_entity_id: u64,
    now: i32,
    last_tick: i32,
    n: nat,
)
    requires
        n <= npcs.len(),
    ensures
        forall|p: u64, t: i32|
            has_credit_row(start.rows, p, t) ==> #[trigger] has_credit_row(
                refresh_credits(start, npcs, params, player_entity_id, now, last_tick, n).rows,
                p,
                t,
            ),
        forall|k: int|
            0 <= k < n && (#[trigger] npcs[k]).task_skill_check@.len() > 0 ==> has_credit_row(
                refresh_credits(start, npcs, params, player_entity_id, now, last_tick, n).rows,
                player_entity_id,
                npcs[k].npc_type,
            ),
    decreases n,
{
    if n > 0 {
        let m = (n - 1) as nat;
        lemma_refresh_rows(start, npcs, params, player_entity_id, now, last_tick, m);
        let prev = refresh_credits(start, npcs, params, player_entity_id, now, last_tick, m);
        let npc = npcs[m as int];
        assert forall|p: u64, t: i32| has_credit_row(start.rows, p, t) implies #[trigger] has_credit_row(
            refresh_credits(start, npcs, params, player_entity_id, now, last_tick, n).rows,
            p,
            t,
        ) by {
            lemma_refresh_one_rows(
                prev,
                npc.npc_type,
                npc.task_skill_check@.len() > 0,
                params,
                player_entity_id,
                now,
                last_tick,
                p,
                t,
            );
        }
        assert forall|k: int| 0 <= k < n && (#[trigger] npcs[k]).task_skill_check@.len() > 0 implies has_credit_row(
            refresh_credits(start, npcs, params, player_entity_id, now, last_tick, n).rows,
            player_entity_id,
            npcs[k].npc_type,
        ) by {
            lemma_refresh_one_rows(
                prev,
                npc.npc_type,
                npc.task_skill_check@.len() > 0,
                params,
                player_entity_id,
                now,
                last_tick,
                player_entity_id,
                npcs[k].npc_type,
            );
        }
    }
}

/// After a refresh, the player has a credit row with every traveler that
/// hands out tasks, and no credit row of anyone has gone away.
pub proof fn law_refresh_covers_every_traveler(
    rows: Seq<TravelerTaskCreditState>,
    next_entity_id: u64,
    npcs: Seq<NpcDesc>,
    params: Option<TravelerTaskParameters>,
    player_entity_id: u64,
    now: i32,
    last_tick: i32,
)
    ensures
        ({
            let result = refresh_credits(
                CreditRefresh { rows, next_entity_id, refreshed: Set::empty() },
                npcs,
                params,
                player_entity_id,
                now,
                last_tick,
                npcs.len(),
            );
            &&& forall|k: int|
                0 <= k < npcs.len() && (#[trigger] npcs[k]).task_skill_check@.len() > 0 ==> has_credit_row(
                    result.rows,
                    player_entity_id,
                    npcs[k].npc_type,
                )
            &&& forall|p: u64, t: i32| has_credit_row(rows, p, t) ==> #[trigger] has_credit_row(result.rows, p, t)
        }),
{
    lemma_refresh_rows(
        CreditRefresh { rows, next_entity_id, refreshed: Set::empty() },
        npcs,
        params,
        player_entity_id,
        now,
        last_tick,
        npcs.len(),
    );
}

/// Spending credits takes exactly `cost` from the player's first row for the
/// traveler and leaves every other row as it was; it succeeds exactly when
/// that row exists and holds at least `cost` credits.
pub proof fn law_spending_takes_exactly_the_cost(
    rows: Seq<TravelerTaskCreditState>,
    player_entity_id: u64,
    traveler_id: i32,
    cost: u32,
)
    ensures
        spend_credits(rows, player_entity_id, traveler_id, cost) is Some <==> exists|i: int|
            first_credit_row(rows, player_entity_id, traveler_id, i) && #[trigger] rows[i].credits >= cost,
        spend_credits(rows, player_entity_id, traveler_id, cost) matches Some(after) ==> {
            &&& after.len() == rows.len()
            &&& forall|i: int|
                0 <= i < rows.len() ==> if first_credit_row(rows, player_entity_id, traveler_id, i) {
                    #[trigger] after[i].credits == rows[i].credits - cost && after[i].entity_id == rows[i].entity_id
                        && after[i].last_reset == rows[i].last_reset && is_credit_row(after[i], player_entity_id, traveler_id)
                } else {
                    after[i] == rows[i]
                }
        },
{
    lemma_credit_row_index_is_first(rows, player_entity_id, traveler_id);
    let i0 = credit_row_index(rows, player_entity_id, traveler_id, rows.len());
    assert forall|i: int| first_credit_row(rows, player_entity_id, traveler_id, i) implies i == i0 by {
        if i < i0 {
        } else if i > i0 {
            assert(is_credit_row(rows[i0], player_entity_id, traveler_id));
        }
    }
    if i0 < rows.len() && rows[i0].credits >= cost {
        assert(first_credit_row(rows, player_entity_id, traveler_id, i0));
    }
}

/// A due reset stays due as time goes on: if a reset is due at `now`, it is
/// due at every later time.
pub proof fn law_reset_stays_due(now: i32, later: i32, last_reset: i32)
    requires
        now <= later,
        saturating_diff(now, last_reset) >= TRAVELER_TASK_RESET_INTERVAL_SECS,
    ensures
        saturating_diff(later, last_reset) >= TRAVELER_TASK_RESET_INTERVAL_SECS,
{
}

/// Resets every player's traveler credits (an admin command): each credit
/// row's last reset goes back to 0, so that the next refresh refills it.
pub fn admin_reset_traveler_task_credits(is_admin: bool, rows: &mut Vec<TravelerTaskCreditState>) -> (result: Result<
    (),
    AdminError,
>)
    ensures
        !is_admin ==> result == Err::<(), AdminError>(AdminError::Unauthorized) && final(rows)@ == old(rows)@,
        is_admin ==> result is Ok && final(rows)@.len() == old(rows)@.len() && forall|i: int|
            0 <= i < old(rows)@.len() ==> #[trigger] final(rows)@[i] == (TravelerTaskCreditState {
                last_reset: 0,
                ..old(rows)@[i]
            }),
{
    if !is_admin {
        return Err(AdminError::Unauthorized);
    }
    let ghost original = rows@;
    let n = rows.len();
    let mut i: usize = 0;
    while i < n
        invariant
            n == original.len(),
            i <= n,
            rows@.len() == original.len(),
            forall|j: int| 0 <= j < i ==> #[trigger] rows@[j] == (TravelerTaskCreditState { last_reset: 0, ..original[j] }),
            forall|j: int| i <= j < rows@.len() ==> #[trigger] rows@[j] == original[j],
        decreases n - i,
    {
        let row = rows[i];
        rows.set(i, TravelerTaskCreditState { last_reset: 0, ..row });
        i = i + 1;
    }
    Ok(())
}

/// After an admin reset, every credit row is due for a refill once one
/// reset interval has passed since the epoch.
pub proof fn law_reset_rows_are_due(rows: Seq<TravelerTaskCreditState>, now: i32)
    requires
        now >= TRAVELER_TASK_RESET_INTERVAL_SECS,
        forall|i: int| 0 <= i < rows.len() ==> (#[trigger] rows[i]).last_reset == 0,
    ensures
        forall|i: int| 0 <= i < rows.len() ==> saturating_diff(now, (#[trigger] rows[i]).last_reset) >= TRAVELER_TASK_RESET_INTERVAL_SECS,
{
}

} // verus!
