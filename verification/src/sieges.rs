//! Cleaning the sieges of empire nodes: a node under siege has exactly two
//! active sieges (attacker and defender); marks for a siege (inactive
//! sieges) are dropped once the node is under siege, and broken sieges are
//! terminated together with their siege engine.
use vstd::prelude::*;

use crate::admin::AdminError;

verus! {

/// A siege of an empire node (a building): active, or a mark for a siege.
#[derive(Clone, Copy, Debug, PartialEq, Eq)]
pub struct NodeSiege {
    pub entity_id: u64,
    pub building_entity_id: u64,
    pub active: bool,
}

/// A siege engine deployed against a building.
#[derive(Clone, Copy, Debug, PartialEq, Eq)]
pub struct SiegeEngine {
    pub entity_id: u64,
    pub building_entity_id: u64,
}

/// What cleaning the sieges does: the sieges that stay, those deleted, the
/// siege engines destroyed, how many marks were dropped and how many active
/// sieges were terminated.
pub struct SiegeCleanup {
    pub kept: Vec<NodeSiege>,
    pub removed: Vec<NodeSiege>,
    pub destroyed_engines: Vec<SiegeEngine>,
    pub unmarked: usize,
    pub terminated: usize,
}

// ---------------------------------------------------------------------------
// Specifications
// ---------------------------------------------------------------------------

/// The siege is an active siege of the building.
pub open spec fn active_at(building_entity_id: u64) -> spec_fn(NodeSiege) -> bool {
    |s: NodeSiege| s.building_entity_id == building_entity_id && s.active
}

/// The number of active sieges of the building.
pub open spec fn active_count(sieges: Seq<NodeSiege>, building_entity_id: u64) -> nat {
    sieges.filter(active_at(building_entity_id)).len()
}

/// The building is under siege, but not by exactly two active sieges.
pub open spec fn broken_siege(sieges: Seq<NodeSiege>, building_entity_id: u64) -> bool {
    active_count(sieges, building_entity_id) > 0 && active_count(sieges, building_entity_id) != 2
}

/// A siege stays: its building is not under siege (a mark only), or it is
/// one of the exactly two active sieges of its building.
pub open spec fn survives(sieges: Seq<NodeSiege>) -> spec_fn(NodeSiege) -> bool {
    |s: NodeSiege|
        active_count(sieges, s.building_entity_id) == 0 || (s.active && active_count(sieges, s.building_entity_id) == 2)
}

/// A siege is deleted.
pub open spec fn deleted(sieges: Seq<NodeSiege>) -> spec_fn(NodeSiege) -> bool {
    |s: NodeSiege| !survives(sieges)(s)
}

/// A mark for a siege of a building already under siege.
pub open spec fn unmarked(sieges: Seq<NodeSiege>) -> spec_fn(NodeSiege) -> bool {
    |s: NodeSiege| !s.active && active_count(sieges, s.building_entity_id) > 0
}

/// An active siege of a broken siege.
pub open spec fn terminated(sieges: Seq<NodeSiege>) -> spec_fn(NodeSiege) -> bool {
    |s: NodeSiege| s.active && active_count(sieges, s.building_entity_id) != 2
}

/// A siege engine whose building's siege is broken.
pub open spec fn engine_destroyed(sieges: Seq<NodeSiege>) -> spec_fn(SiegeEngine) -> bool {
    |e: SiegeEngine| broken_siege(sieges, e.building_entity_id)
}

/// The sieges of every building are sound: either the building is not
/// under siege, or it has exactly two active sieges and no mark.
pub open spec fn sieges_sound(sieges: Seq<NodeSiege>) -> bool {
    forall|i: int|
        0 <= i < sieges.len() ==> active_count(sieges, (#[trigger] sieges[i]).building_entity_id) == 0 || (sieges[i].active
            && active_count(sieges, sieges[i].building_entity_id) == 2)
}

// ---------------------------------------------------------------------------
// Lemmas on filters
// ---------------------------------------------------------------------------

proof fn lemma_filter_step<A>(s: Seq<A>, pred: spec_fn(A) -> bool, i: int)
    requires
        0 <= i < s.len(),
    ensures
        s.take(i + 1).filter(pred) == if pred(s[i]) {
            s.take(i).filter(pred).push(s[i])
        } else {
            s.take(i).filter(pred)
        },
{
    reveal(Seq::filter);
    assert(s.take(i + 1).drop_last() =~= s.take(i));
}

proof fn lemma_filter_congruent<A>(s: Seq<A>, p: spec_fn(A) -> bool, q: spec_fn(A) -> bool)
    requires
        forall|i: int| 0 <= i < s.len() ==> p(#[trigger] s[i]) == q(s[i]),
    ensures
        s.filter(p) == s.filter(q),
    decreases s.len(),
{
    reveal(Seq::filter);
    if s.len() > 0 {
        lemma_filter_congruent(s.drop_last(), p, q);
        assert(p(s[s.len() - 1]) == q(s[s.len() - 1]));
    }
}

proof fn lemma_filter_all<A>(s: Seq<A>, p: spec_fn(A) -> bool)
    requires
        forall|i: int| 0 <= i < s.len() ==> p(#[trigger] s[i]),
    ensures
        s.filter(p) == s,
    decreases s.len(),
{
    reveal(Seq::filter);
    if s.len() > 0 {
        lemma_filter_all(s.drop_last(), p);
        assert(p(s[s.len() - 1]));
        assert(s.drop_last().push(s.last()) =~= s);
    }
}

proof fn lemma_filter_none<A>(s: Seq<A>, p: spec_fn(A) -> bool)
    requires
        forall|i: int| 0 <= i < s.len() ==> !p(#[trigger] s[i]),
    ensures
        s.filter(p) == Seq::<A>::empty(),
    decreases s.len(),
{
    reveal(Seq::filter);
    if s.len() > 0 {
        lemma_filter_none(s.drop_last(), p);
        assert(!p(s[s.len() - 1]));
    }
}

proof fn lemma_filter_filter<A>(s: Seq<A>, p: spec_fn(A) -> bool, q: spec_fn(A) -> bool)
    ensures
        s.filter(p).filter(q) == s.filter(|x: A| p(x) && q(x)),
    decreases s.len(),
{
    reveal(Seq::filter);
    if s.len() > 0 {
        lemma_filter_filter(s.drop_last(), p, q);
        let last = s.last();
        if p(last) {
            let sub = s.drop_last().filter(p);
            assert(sub.push(last).drop_last() =~= sub);
        }
    }
}

/// An active siege of a building counts towards its building.
proof fn lemma_active_counted(sieges: Seq<NodeSiege>, i: int)
    requires
        0 <= i < sieges.len(),
        sieges[i].active,
    ensures
        active_count(sieges, sieges[i].building_entity_id) > 0,
{
    let b = sieges[i].building_entity_id;
    sieges.lemma_filter_contains(active_at(b), i);
}

/// After cleaning, a building keeps its two active sieges if it had exactly
/// two, and no active siege otherwise.
proof fn lemma_kept_active_count(sieges: Seq<NodeSiege>, b: u64)
    ensures
        active_count(sieges.filter(survives(sieges)), b) == if active_count(sieges, b) == 2 {
            2nat
        } else {
            0nat
        },
{
    let kept = sieges.filter(survives(sieges));
    lemma_filter_filter(sieges, survives(sieges), active_at(b));
    let both = |x: NodeSiege| survives(sieges)(x) && active_at(b)(x);
    if active_count(sieges, b) == 2 {
        assert forall|i: int| 0 <= i < sieges.len() implies both(#[trigger] sieges[i]) == active_at(b)(sieges[i]) by {}
        lemma_filter_congruent(sieges, both, active_at(b));
    } else {
        assert forall|i: int| 0 <= i < sieges.len() implies !both(#[trigger] sieges[i]) by {
            if active_at(b)(sieges[i]) {
                lemma_active_counted(sieges, i);
            }
        }
        lemma_filter_none(sieges, both);
    }
}

// ---------------------------------------------------------------------------
// Executable functions
// ---------------------------------------------------------------------------

/// The number of active sieges of the building.
pub fn count_active_sieges(sieges: &Vec<NodeSiege>, building_entity_id: u64) -> (n: usize)
    ensures
        n == active_count(sieges@, building_entity_id),
{
    let mut n: usize = 0;
    for i in 0..sieges.len()
        invariant
            n == sieges@.take(i as int).filter(active_at(building_entity_id)).len(),
            n <= i,
    {
        proof {
            lemma_filter_step(sieges@, active_at(building_entity_id), i as int);
        }
        if sieges[i].building_entity_id == building_entity_id && sieges[i].active {
            n = n + 1;
        }
    }
    proof {
        assert(sieges@.take(sieges@.len() as int) =~= sieges@);
    }
    n
}

/// Cleans the sieges of every empire node (an admin command). For each
/// building under siege, its marks are dropped; if it has not exactly two
/// active sieges, all its sieges are deleted and its siege engine is
/// destroyed. Buildings only marked for a siege keep their marks.
pub fn admin_clean_sieges(is_admin: bool, sieges: &Vec<NodeSiege>, engines: &Vec<SiegeEngine>) -> (result: Result<
    SiegeCleanup,
    AdminError,
>)
    ensures
        !is_admin ==> result == Err::<SiegeCleanup, AdminError>(AdminError::Unauthorized),
        is_admin ==> (result matches Ok(cleanup) && {
            &&& cleanup.kept@ == sieges@.filter(survives(sieges@))
            &&& cleanup.removed@ == sieges@.filter(deleted(sieges@))
            &&& cleanup.destroyed_engines@ == engines@.filter(engine_destroyed(sieges@))
            &&& cleanup.unmarked == sieges@.filter(unmarked(sieges@)).len()
            &&& cleanup.terminated == sieges@.filter(terminated(sieges@)).len()
        }),
{
    if !is_admin {
        return Err(AdminError::Unauthorized);
    }
    let ghost all = sieges@;
    let mut kept: Vec<NodeSiege> = Vec::new();
    let mut removed: Vec<NodeSiege> = Vec::new();
    let mut unmarked_count: usize = 0;
    let mut terminated_count: usize = 0;
    for i in 0..sieges.len()
        invariant
            all == sieges@,
            kept@ == all.take(i as int).filter(survives(all)),
            removed@ == all.take(i as int).filter(deleted(all)),
            unmarked_count == all.take(i as int).filter(unmarked(all)).len(),
            terminated_count == all.take(i as int).filter(terminated(all)).len(),
            unmarked_count <= i,
            terminated_count <= i,
    {
        proof {
            lemma_filter_step(all, survives(all), i as int);
            lemma_filter_step(all, deleted(all), i as int);
            lemma_filter_step(all, unmarked(all), i as int);
            lemma_filter_step(all, terminated(all), i as int);
        }
        let siege = sieges[i];
        let count = count_active_sieges(sieges, siege.building_entity_id);
        if count == 0 || (siege.active && count == 2) {
            kept.push(siege);
        } else {
            removed.push(siege);
        }
        if !siege.active && count > 0 {
            unmarked_count = unmarked_count + 1;
        }
        if siege.active && count != 2 {
            terminated_count = terminated_count + 1;
        }
    }
    let mut destroyed: Vec<SiegeEngine> = Vec::new();
    for j in 0..engines.len()
        invariant
            all == sieges@,
            destroyed@ == engines@.take(j as int).filter(engine_destroyed(all)),
    {
        proof {
            lemma_filter_step(engines@, engine_destroyed(all), j as int);
        }
        let engine = engines[j];
        let count = count_active_sieges(sieges, engine.building_entity_id);
        if count > 0 && count != 2 {
            destroyed.push(engine);
        }
    }
    proof {
        assert(all.take(all.len() as int) =~= all);
        assert(engines@.take(engines@.len() as int) =~= engines@);
    }
    Ok(
        SiegeCleanup {
            kept,
            removed,
            destroyed_engines: destroyed,
            unmarked: unmarked_count,
            terminated: terminated_count,
        },
    )
}

// ---------------------------------------------------------------------------
// Laws
// ---------------------------------------------------------------------------

/// After cleaning, the sieges are sound: every building is either not
/// under siege or under siege by exactly two active sieges with no mark left.
pub proof fn law_cleaned_sieges_are_sound(sieges: Seq<NodeSiege>)
    ensures
        sieges_sound(sieges.filter(survives(sieges))),
{
    let kept = sieges.filter(survives(sieges));
    assert forall|i: int| 0 <= i < kept.len() implies active_count(kept, (#[trigger] kept[i]).building_entity_id) == 0 || (
    kept[i].active && active_count(kept, kept[i].building_entity_id) == 2) by {
        let b = kept[i].building_entity_id;
        sieges.lemma_filter_pred(survives(sieges), i);
        lemma_kept_active_count(sieges, b);
    }
}

/// Cleaning sound sieges changes nothing: a second clean keeps every siege.
pub proof fn law_cleaning_is_idempotent(sieges: Seq<NodeSiege>)
    ensures
        ({
            let kept = sieges.filter(survives(sieges));
            kept.filter(survives(kept)) == kept
        }),
{
    let kept = sieges.filter(survives(sieges));
    law_cleaned_sieges_are_sound(sieges);
    assert forall|i: int| 0 <= i < kept.len() implies survives(kept)(#[trigger] kept[i]) by {}
    lemma_filter_all(kept, survives(kept));
}

/// Every siege is either kept or deleted, and the number of deleted sieges
/// is the number of dropped marks plus the number of terminated sieges.
pub proof fn law_cleanup_accounts_for_every_siege(sieges: Seq<NodeSiege>)
    ensures
        sieges.filter(survives(sieges)).len() + sieges.filter(deleted(sieges)).len() == sieges.len(),
        sieges.filter(deleted(sieges)).len() == sieges.filter(unmarked(sieges)).len() + sieges.filter(
            terminated(sieges),
        ).len(),
{
    lemma_partition_counts(sieges, sieges.len());
    assert(sieges.take(sieges.len() as int) =~= sieges);
}

proof fn lemma_partition_counts(all: Seq<NodeSiege>, n: nat)
    requires
        n <= all.len(),
    ensures
        all.take(n as int).filter(survives(all)).len() + all.take(n as int).filter(deleted(all)).len() == n,
        all.take(n as int).filter(deleted(all)).len() == all.take(n as int).filter(unmarked(all)).len() + all.take(
            n as int,
        ).filter(terminated(all)).len(),
    decreases n,
{
    if n > 0 {
        lemma_partition_counts(all, (n - 1) as nat);
        lemma_filter_step(all, survives(all), n - 1);
        lemma_filter_step(all, deleted(all), n - 1);
        lemma_filter_step(all, unmarked(all), n - 1);
        lemma_filter_step(all, terminated(all), n - 1);
        if all[n - 1].active {
            lemma_active_counted(all, n - 1);
        }
    }
}

} // verus!
