//! Placing and clearing the watchtowers of the NPC empire in a region: the
//! request's checks, which sites are taken, and what is sent on.
use std::collections::HashSet;
use vstd::prelude::*;

verus! {

broadcast use vstd::std_specs::hash::group_hash_axioms;

/// A small tile in offset coordinates.
#[derive(Clone, Copy, Debug, PartialEq, Eq)]
pub struct OffsetCoordinatesSmall {
    pub x: i32,
    pub z: i32,
    pub dimension: u32,
}

/// What the placement checks found at one requested position.
#[derive(Clone, Copy, Debug, PartialEq, Eq)]
pub struct WatchtowerSiteCheck {
    /// The footprint fits (terrain, biome, water).
    pub footprint_valid: bool,
    /// The dimension rules of the building's recipe hold (true without a recipe).
    pub dimension_valid: bool,
    /// The footprint overlaps an existing claim.
    pub overlaps_claims: bool,
    /// A settlement totem lies within the watchtower distance.
    pub near_claim_totem: bool,
}

/// A watchtower building placed in the region, with the chunks it covers.
#[derive(Clone, Debug)]
pub struct NpcWatchtowerPlacement {
    pub building_entity_id: u64,
    pub location: OffsetCoordinatesSmall,
    pub chunk_indexes: Vec<u64>,
}

/// The nickname given to a building, shared with the global module.
#[derive(Clone, Debug)]
pub struct BuildingNickname {
    pub entity_id: u64,
    pub nickname: String,
}

/// One placement in the logged results (entity 0 in a dry run).
#[derive(Clone, Copy, Debug, PartialEq, Eq)]
pub struct WorldEntityPlacement {
    pub entity_id: u64,
    pub coordinates: OffsetCoordinatesSmall,
    pub prototype_id: i32,
}

/// Why a watchtower request was refused.
#[derive(Clone, Copy, Debug, PartialEq, Eq, Structural)]
pub enum WatchtowerError {
    Unauthorized,
    /// The number of positions and the number of chunk lists differ.
    PositionCountMismatch(usize, usize),
    /// No building description has this id.
    UnknownBuildingDesc(i32),
    /// The chunk index is assigned to watchtowers twice.
    DuplicateChunkIndex(u64),
}

// ---------------------------------------------------------------------------
// Specifications
// ---------------------------------------------------------------------------

/// The chunk lists, one after the other.
pub open spec fn flatten(lists: Seq<Vec<u64>>) -> Seq<u64>
    decreases lists.len(),
{
    if lists.len() == 0 {
        seq![]
    } else {
        flatten(lists.drop_last()) + lists.last()@
    }
}

/// The chunk at position `j` was already assigned before it, and it is the
/// first such repetition.
pub open spec fn first_repeat_at(flat: Seq<u64>, j: int) -> bool {
    0 <= j < flat.len() && flat.take(j).contains(flat[j]) && flat.take(j).no_duplicates()
}

/// The verdict on a watchtower request, checked in order: the caller is an
/// admin, the counts match, the building exists, no chunk is assigned twice.
pub open spec fn request_verdict(
    is_admin: bool,
    position_count: usize,
    chunk_indexes: Seq<Vec<u64>>,
    building_desc_found: bool,
    building_desc_id: i32,
) -> Result<(), WatchtowerError> {
    if !is_admin {
        Err(WatchtowerError::Unauthorized)
    } else if position_count != chunk_indexes.len() {
        Err(WatchtowerError::PositionCountMismatch(position_count, chunk_indexes.len() as usize))
    } else if !building_desc_found {
        Err(WatchtowerError::UnknownBuildingDesc(building_desc_id))
    } else if !flatten(chunk_indexes).no_duplicates() {
        Err(WatchtowerError::DuplicateChunkIndex(
            flatten(chunk_indexes)[choose|j: int| first_repeat_at(flatten(chunk_indexes), j)],
        ))
    } else {
        Ok(())
    }
}

/// A site is taken when its footprint and dimension are valid, it overlaps
/// no claim (unless claims are ignored) and no settlement totem is near.
pub open spec fn site_taken(check: WatchtowerSiteCheck, ignore_claims: bool) -> bool {
    check.footprint_valid && check.dimension_valid && (ignore_claims || !check.overlaps_claims) && !check.near_claim_totem
}

/// The indices of the taken sites among the first `n`, in order.
pub open spec fn taken_sites(checks: Seq<WatchtowerSiteCheck>, ignore_claims: bool, n: nat) -> Seq<usize>
    decreases n,
{
    if n == 0 {
        seq![]
    } else if site_taken(checks[n - 1], ignore_claims) {
        taken_sites(checks, ignore_claims, (n - 1) as nat).push((n - 1) as usize)
    } else {
        taken_sites(checks, ignore_claims, (n - 1) as nat)
    }
}

/// The building at position `j` of the list still stands when it comes up:
/// it exists and was not named earlier in the list.
pub open spec fn cleared_at(ids: Seq<u64>, existing: Set<u64>, j: int) -> bool {
    existing.contains(ids[j]) && !ids.take(j).contains(ids[j])
}

/// The buildings deleted by clearing, in the order of the list.
pub open spec fn cleared(ids: Seq<u64>, existing: Set<u64>, n: nat) -> Seq<u64>
    decreases n,
{
    if n == 0 {
        seq![]
    } else if cleared_at(ids, existing, n - 1) {
        cleared(ids, existing, (n - 1) as nat).push(ids[n - 1])
    } else {
        cleared(ids, existing, (n - 1) as nat)
    }
}

// ---------------------------------------------------------------------------
// Lemmas
// ---------------------------------------------------------------------------

proof fn lemma_flatten_push(lists: Seq<Vec<u64>>, l: Vec<u64>)
    ensures
        flatten(lists.push(l)) == flatten(lists) + l@,
{
    assert(lists.push(l).drop_last() =~= lists);
}

proof fn lemma_to_set_push(s: Seq<u64>, x: u64)
    ensures
        s.push(x).to_set() == s.to_set().insert(x),
{
    assert forall|a: u64| s.push(x).contains(a) <==> (s.contains(a) || a == x) by {
        if s.contains(a) {
            let w = choose|w: int| 0 <= w < s.len() && s[w] == a;
            assert(s.push(x)[w] == a);
        }
        if a == x {
            assert(s.push(x)[s.len() as int] == a);
        }
        if s.push(x).contains(a) && a != x {
            let w = choose|w: int| 0 <= w < s.push(x).len() && s.push(x)[w] == a;
            assert(s[w] == a);
        }
    }
    assert forall|a: u64| #[trigger] s.push(x).to_set().contains(a) <==> s.to_set().insert(x).contains(a) by {
        assert(s.push(x).contains(a) <==> (s.contains(a) || a == x));
    }
    assert(s.push(x).to_set() =~= s.to_set().insert(x));
}

proof fn lemma_first_repeat_unique(flat: Seq<u64>, j: int, k: int)
    requires
        first_repeat_at(flat, j),
        first_repeat_at(flat, k),
    ensures
        j == k,
{
    if j < k {
        assert(flat.take(k)[j] == flat[j]);
        let w = choose|w: int| 0 <= w < j && flat.take(j)[w] == flat[j];
        assert(flat.take(k)[w] == flat[j]);
    } else if k < j {
        assert(flat.take(j)[k] == flat[k]);
        let w = choose|w: int| 0 <= w < k && flat.take(k)[w] == flat[k];
        assert(flat.take(j)[w] == flat[k]);
    }
}

// ---------------------------------------------------------------------------
// Executable functions
// ---------------------------------------------------------------------------

/// The first chunk index assigned twice, in the order of the lists.
pub fn first_duplicate_chunk(chunk_indexes: &Vec<Vec<u64>>) -> (dup: Option<u64>)
    ensures
        dup is None <==> flatten(chunk_indexes@).no_duplicates(),
        dup matches Some(c) ==> exists|j: int|
            first_repeat_at(flatten(chunk_indexes@), j) && flatten(chunk_indexes@)[j] == c,
{
    let mut seen: HashSet<u64> = HashSet::new();
    let ghost mut flat: Seq<u64> = seq![];
    for k in 0..chunk_indexes.len()
        invariant
            flat == flatten(chunk_indexes@.take(k as int)),
            flat.no_duplicates(),
            seen@ == flat.to_set(),
    {
        let chunks = &chunk_indexes[k];
        proof {
            assert(chunk_indexes@.take(k + 1) =~= chunk_indexes@.take(k as int).push(chunk_indexes@[k as int]));
            lemma_flatten_push(chunk_indexes@.take(k as int), chunk_indexes@[k as int]);
        }
        let ghost base = flat;
        for m in 0..chunks.len()
            invariant
                flat == base + chunks@.take(m as int),
                flat.no_duplicates(),
                seen@ == flat.to_set(),
                chunks@ == chunk_indexes@[k as int]@,
                k < chunk_indexes@.len(),
                flatten(chunk_indexes@.take(k + 1)) == base + chunks@,
        {
            let c = chunks[m];
            let fresh = seen.insert(c);
            if !fresh {
                proof {
                    let all = flatten(chunk_indexes@);
                    let next = flat.push(c);
                    assert(flat.to_set().contains(c));
                    assert(flat.contains(c));
                    lemma_prefix_of_flatten(chunk_indexes@, (k + 1) as nat);
                    let full = flatten(chunk_indexes@.take(k + 1));
                    assert(flat.len() == base.len() + m);
                    assert(full[flat.len() as int] == c);
                    assert(all.take(full.len() as int)[flat.len() as int] == c);
                    assert(all.take(flat.len() as int) =~= full.take(flat.len() as int));
                    assert(full.take(flat.len() as int) =~= flat);
                    assert(all[flat.len() as int] == c);
                    assert(first_repeat_at(all, flat.len() as int));
                    assert(!all.no_duplicates()) by {
                        let w = choose|w: int| 0 <= w < flat.len() && flat[w] == c;
                        assert(all[w] == c);
                    }
                }
                return Some(c);
            }
            proof {
                assert(chunks@.take(m + 1) =~= chunks@.take(m as int).push(c));
                assert(base + chunks@.take(m + 1) =~= flat.push(c));
                lemma_to_set_push(flat, c);
                flat = flat.push(c);
            }
        }
        proof {
            assert(chunks@.take(chunks@.len() as int) =~= chunks@);
        }
    }
    proof {
        assert(chunk_indexes@.take(chunk_indexes@.len() as int) =~= chunk_indexes@);
    }
    None
}

/// A prefix of the lists gives a prefix of the flattened lists.
proof fn lemma_prefix_of_flatten(lists: Seq<Vec<u64>>, k: nat)
    requires
        k <= lists.len(),
    ensures
        flatten(lists).take(flatten(lists.take(k as int)).len() as int) == flatten(lists.take(k as int)),
        flatten(lists.take(k as int)).len() <= flatten(lists).len(),
    decreases lists.len() - k,
{
    if k < lists.len() {
        lemma_prefix_of_flatten(lists, k + 1);
        assert(lists.take(k as int + 1) =~= lists.take(k as int).push(lists[k as int]));
        lemma_flatten_push(lists.take(k as int), lists[k as int]);
        let short = flatten(lists.take(k as int));
        let long = flatten(lists.take(k as int + 1));
        assert(long.take(short.len() as int) =~= short);
        assert(flatten(lists).take(short.len() as int) =~= flatten(lists).take(long.len() as int).take(short.len() as int));
    } else {
        assert(lists.take(k as int) =~= lists);
        assert(flatten(lists).take(flatten(lists).len() as int) =~= flatten(lists));
    }
}

/// Checks a watchtower request, in order: the caller is an admin, there are
/// as many chunk lists as positions, the building exists, and no chunk index
/// is assigned twice (the first repeated one is reported).
pub fn validate_watchtower_request(
    is_admin: bool,
    position_count: usize,
    chunk_indexes: &Vec<Vec<u64>>,
    building_desc_found: bool,
    building_desc_id: i32,
) -> (verdict: Result<(), WatchtowerError>)
    ensures
        verdict == request_verdict(is_admin, position_count, chunk_indexes@, building_desc_found, building_desc_id),
{
    if !is_admin {
        return Err(WatchtowerError::Unauthorized);
    }
    if position_count != chunk_indexes.len() {
        return Err(WatchtowerError::PositionCountMismatch(position_count, chunk_indexes.len()));
    }
    if !building_desc_found {
        return Err(WatchtowerError::UnknownBuildingDesc(building_desc_id));
    }
    match first_duplicate_chunk(chunk_indexes) {
        Some(c) => {
            proof {
                let flat = flatten(chunk_indexes@);
                let j = choose|j: int| first_repeat_at(flat, j) && flat[j] == c;
                let k = choose|j: int| first_repeat_at(flat, j);
                lemma_first_repeat_unique(flat, j, k);
            }
            Err(WatchtowerError::DuplicateChunkIndex(c))
        },
        None => Ok(()),
    }
}

/// The indices of the sites where a watchtower is placed, in order.
pub fn taken_watchtower_sites(checks: &Vec<WatchtowerSiteCheck>, ignore_claims: bool) -> (taken: Vec<usize>)
    ensures
        taken@ == taken_sites(checks@, ignore_claims, checks@.len()),
{
    let mut taken: Vec<usize> = Vec::new();
    for i in 0..checks.len()
        invariant
            taken@ == taken_sites(checks@, ignore_claims, i as nat),
    {
        let c = checks[i];
        if c.footprint_valid && c.dimension_valid && (ignore_claims || !c.overlaps_claims) && !c.near_claim_totem {
            taken.push(i);
        }
    }
    taken
}

/// The nickname of a watchtower of the NPC empire:
/// "<NPC empire name>'s <building name>".
pub fn watchtower_nickname(npc_empire_name: &str, building_name: &str) -> (nickname: String)
    ensures
        nickname@ == npc_empire_name@ + "'s "@ + building_name@,
{
    String::from_str(npc_empire_name).concat("'s ").concat(building_name)
}

/// The nicknames of the watchtower buildings created, one per building in
/// order: each "<NPC empire name>'s <building name>".
pub fn watchtower_nicknames(building_entity_ids: &Vec<u64>, npc_empire_name: &str, building_name: &str) -> (nicknames: Vec<
    BuildingNickname,
>)
    ensures
        nicknames@.len() == building_entity_ids@.len(),
        forall|k: int|
            0 <= k < building_entity_ids@.len() ==> {
                &&& (#[trigger] nicknames@[k]).entity_id == building_entity_ids@[k]
                &&& nicknames@[k].nickname@ == npc_empire_name@ + "'s "@ + building_name@
            },
{
    let mut nicknames: Vec<BuildingNickname> = Vec::new();
    for k in 0..building_entity_ids.len()
        invariant
            nicknames@.len() == k,
            forall|k2: int|
                0 <= k2 < k ==> {
                    &&& (#[trigger] nicknames@[k2]).entity_id == building_entity_ids@[k2]
                    &&& nicknames@[k2].nickname@ == npc_empire_name@ + "'s "@ + building_name@
                },
    {
        let nickname = watchtower_nickname(npc_empire_name, building_name);
        nicknames.push(BuildingNickname { entity_id: building_entity_ids[k], nickname });
    }
    nicknames
}

/// The placements sent on to the global module: for each taken site, the
/// building created there, its position and its chunk list.
pub fn npc_watchtower_placements(
    positions: &Vec<OffsetCoordinatesSmall>,
    chunk_indexes: &Vec<Vec<u64>>,
    taken: &Vec<usize>,
    building_entity_ids: &Vec<u64>,
) -> (placements: Vec<NpcWatchtowerPlacement>)
    requires
        taken@.len() == building_entity_ids@.len(),
        forall|k: int| 0 <= k < taken@.len() ==> #[trigger] taken@[k] < positions@.len() && taken@[k] < chunk_indexes@.len(),
    ensures
        placements@.len() == taken@.len(),
        forall|k: int|
            0 <= k < taken@.len() ==> {
                &&& (#[trigger] placements@[k]).building_entity_id == building_entity_ids@[k]
                &&& placements@[k].location == positions@[taken@[k] as int]
                &&& placements@[k].chunk_indexes@ == chunk_indexes@[taken@[k] as int]@
            },
{
    let mut placements: Vec<NpcWatchtowerPlacement> = Vec::new();
    for k in 0..taken.len()
        invariant
            taken@.len() == building_entity_ids@.len(),
            forall|k2: int| 0 <= k2 < taken@.len() ==> #[trigger] taken@[k2] < positions@.len() && taken@[k2] < chunk_indexes@.len(),
            placements@.len() == k,
            forall|k2: int|
                0 <= k2 < k ==> {
                    &&& (#[trigger] placements@[k2]).building_entity_id == building_entity_ids@[k2]
                    &&& placements@[k2].location == positions@[taken@[k2] as int]
                    &&& placements@[k2].chunk_indexes@ == chunk_indexes@[taken@[k2] as int]@
                },
    {
        let i = taken[k];
        let mut chunks: Vec<u64> = Vec::new();
        let source = &chunk_indexes[i];
        for m in 0..source.len()
            invariant
                chunks@ == source@.take(m as int),
        {
            chunks.push(source[m]);
            proof {
                assert(source@.take(m + 1) =~= source@.take(m as int).push(source@[m as int]));
            }
        }
        proof {
            assert(source@.take(source@.len() as int) =~= source@);
        }
        placements.push(
            NpcWatchtowerPlacement { building_entity_id: building_entity_ids[k], location: positions[i], chunk_indexes: chunks },
        );
    }
    placements
}

/// The logged results: one entry per taken site, with the created building
/// (entity 0 in a dry run, where nothing is created).
pub fn watchtower_results(
    positions: &Vec<OffsetCoordinatesSmall>,
    taken: &Vec<usize>,
    building_entity_ids: &Vec<u64>,
    building_desc_id: i32,
    dry_run: bool,
) -> (results: Vec<WorldEntityPlacement>)
    requires
        dry_run || taken@.len() == building_entity_ids@.len(),
        forall|k: int| 0 <= k < taken@.len() ==> #[trigger] taken@[k] < positions@.len(),
    ensures
        results@.len() == taken@.len(),
        forall|k: int|
            0 <= k < taken@.len() ==> (#[trigger] results@[k]) == (WorldEntityPlacement {
                entity_id: if dry_run {
                    0
                } else {
                    building_entity_ids@[k]
                },
                coordinates: positions@[taken@[k] as int],
                prototype_id: building_desc_id,
            }),
{
    let mut results: Vec<WorldEntityPlacement> = Vec::new();
    for k in 0..taken.len()
        invariant
            dry_run || taken@.len() == building_entity_ids@.len(),
            forall|k2: int| 0 <= k2 < taken@.len() ==> #[trigger] taken@[k2] < positions@.len(),
            results@.len() == k,
            forall|k2: int|
                0 <= k2 < k ==> (#[trigger] results@[k2]) == (WorldEntityPlacement {
                    entity_id: if dry_run {
                        0
                    } else {
                        building_entity_ids@[k2]
                    },
                    coordinates: positions@[taken@[k2] as int],
                    prototype_id: building_desc_id,
                }),
    {
        let entity_id = if dry_run {
            0
        } else {
            building_entity_ids[k]
        };
        results.push(WorldEntityPlacement { entity_id, coordinates: positions[taken[k]], prototype_id: building_desc_id });
    }
    results
}

/// Clears watchtower buildings (an admin command): each listed building that
/// still stands is deleted, in the order of the list; a building named twice
/// is deleted once. Returns the deleted buildings.
pub fn world_clear_npc_watchtowers(is_admin: bool, building_entity_ids: &Vec<u64>, existing: &HashSet<u64>) -> (result:
    Result<Vec<u64>, WatchtowerError>)
    ensures
        !is_admin ==> result == Err::<Vec<u64>, WatchtowerError>(WatchtowerError::Unauthorized),
        is_admin ==> (result matches Ok(deleted) && deleted@ == cleared(
            building_entity_ids@,
            existing@,
            building_entity_ids@.len(),
        )),
{
    if !is_admin {
        return Err(WatchtowerError::Unauthorized);
    }
    let mut deleted: Vec<u64> = Vec::new();
    let mut seen: HashSet<u64> = HashSet::new();
    for j in 0..building_entity_ids.len()
        invariant
            deleted@ == cleared(building_entity_ids@, existing@, j as nat),
            seen@ == building_entity_ids@.take(j as int).to_set(),
    {
        let id = building_entity_ids[j];
        proof {
            assert(building_entity_ids@.take(j + 1) =~= building_entity_ids@.take(j as int).push(id));
            lemma_to_set_push(building_entity_ids@.take(j as int), id);
        }
        let fresh = seen.insert(id);
        if fresh && existing.contains(&id) {
            deleted.push(id);
        }
    }
    Ok(deleted)
}

// ---------------------------------------------------------------------------
// Laws
// ---------------------------------------------------------------------------

/// A refused duplicate names a chunk that really is assigned twice.
pub proof fn law_duplicate_chunk_is_assigned_twice(chunk_indexes: Seq<Vec<u64>>, j: int)
    requires
        first_repeat_at(flatten(chunk_indexes), j),
    ensures
        exists|a: int, b: int|
            0 <= a < b < flatten(chunk_indexes).len() && flatten(chunk_indexes)[a] == flatten(chunk_indexes)[j]
                && flatten(chunk_indexes)[b] == flatten(chunk_indexes)[j],
{
    let flat = flatten(chunk_indexes);
    let w = choose|w: int| 0 <= w < j && flat.take(j)[w] == flat[j];
    assert(flat[w] == flat[j]);
}

/// Clearing deletes every building at most once, and only standing ones.
pub proof fn law_clearing_deletes_standing_buildings_once(ids: Seq<u64>, existing: Set<u64>, n: nat)
    requires
        n <= ids.len(),
    ensures
        cleared(ids, existing, n).no_duplicates(),
        forall|k: int| 0 <= k < cleared(ids, existing, n).len() ==> existing.contains(#[trigger] cleared(ids, existing, n)[k]),
        forall|k: int|
            0 <= k < cleared(ids, existing, n).len() ==> ids.take(n as int).contains(#[trigger] cleared(ids, existing, n)[k]),
    decreases n,
{
    if n > 0 {
        law_clearing_deletes_standing_buildings_once(ids, existing, (n - 1) as nat);
        let prev = cleared(ids, existing, (n - 1) as nat);
        assert forall|k: int| 0 <= k < prev.len() implies ids.take(n as int).contains(#[trigger] prev[k]) by {
            let before = ids.take(n - 1);
            let w = choose|w: int| 0 <= w < before.len() && before[w] == prev[k];
            assert(ids.take(n as int)[w] == prev[k]);
        }
        if cleared_at(ids, existing, n - 1) {
            let x = ids[n - 1];
            assert(ids.take(n as int)[n - 1] == x);
            assert forall|k: int| 0 <= k < prev.len() implies prev[k] != x by {
                let before = ids.take(n - 1);
                let w = choose|w: int| 0 <= w < before.len() && before[w] == prev[k];
                if prev[k] == x {
                    assert(before[w] == x);
                }
            }
        }
    }
}

/// The site passed every placement check: a valid footprint, valid
/// dimension rules, no claim under it (unless claims are ignored) and no
/// settlement totem near it.
pub open spec fn passes_every_check(check: WatchtowerSiteCheck, ignore_claims: bool) -> bool {
    &&& check.footprint_valid
    &&& check.dimension_valid
    &&& (ignore_claims || !check.overlaps_claims)
    &&& !check.near_claim_totem
}

proof fn lemma_taken_sites_pass(checks: Seq<WatchtowerSiteCheck>, ignore_claims: bool, n: nat)
    requires
        n <= checks.len(),
        n <= usize::MAX,
    ensures
        forall|k: int|
            0 <= k < taken_sites(checks, ignore_claims, n).len() ==> {
                let i = #[trigger] taken_sites(checks, ignore_claims, n)[k];
                &&& i < n
                &&& passes_every_check(checks[i as int], ignore_claims)
            },
        forall|a: int, b: int|
            0 <= a < b < taken_sites(checks, ignore_claims, n).len() ==> #[trigger] taken_sites(checks, ignore_claims, n)[a]
                < #[trigger] taken_sites(checks, ignore_claims, n)[b],
        forall|i: int|
            0 <= i < n && passes_every_check(#[trigger] checks[i], ignore_claims) ==> taken_sites(checks, ignore_claims, n).contains(
                i as usize,
            ),
    decreases n,
{
    if n > 0 {
        lemma_taken_sites_pass(checks, ignore_claims, (n - 1) as nat);
        let prev = taken_sites(checks, ignore_claims, (n - 1) as nat);
        let cur = taken_sites(checks, ignore_claims, n);
        assert(((n - 1) as usize) as int == n - 1);
        assert forall|k: int| 0 <= k < cur.len() implies {
            let i = #[trigger] cur[k];
            &&& i < n
            &&& passes_every_check(checks[i as int], ignore_claims)
        } by {
            if k < prev.len() {
                assert(cur[k] == prev[k]);
            }
        }
        assert forall|a: int, b: int| 0 <= a < b < cur.len() implies #[trigger] cur[a] < #[trigger] cur[b] by {
            if b < prev.len() {
                assert(cur[a] == prev[a] && cur[b] == prev[b]);
            } else {
                assert(cur[a] == prev[a]);
                assert(prev[a] < n - 1);
            }
        }
        assert forall|i: int| 0 <= i < n && passes_every_check(#[trigger] checks[i], ignore_claims) implies cur.contains(i as usize) by {
            if i < n - 1 {
                assert(prev.contains(i as usize));
                let k = choose|k: int| 0 <= k < prev.len() && prev[k] == i as usize;
                assert(cur[k] == i as usize);
            } else {
                assert(cur[cur.len() - 1] == i as usize);
            }
        }
    }
}

/// The sites taken are exactly those that passed every placement check, each
/// once, in the order requested: no site failing its footprint, its
/// dimension rules, a claim overlap (unless ignored) or the totem distance
/// gets a watchtower.
pub proof fn law_taken_sites_are_those_passing_every_check(checks: Seq<WatchtowerSiteCheck>, ignore_claims: bool)
    requires
        checks.len() <= usize::MAX,
    ensures
        forall|k: int|
            0 <= k < taken_sites(checks, ignore_claims, checks.len()).len() ==> {
                let i = #[trigger] taken_sites(checks, ignore_claims, checks.len())[k];
                &&& i < checks.len()
                &&& passes_every_check(checks[i as int], ignore_claims)
            },
        forall|a: int, b: int|
            0 <= a < b < taken_sites(checks, ignore_claims, checks.len()).len() ==> #[trigger] taken_sites(
                checks,
                ignore_claims,
                checks.len(),
            )[a] < #[trigger] taken_sites(checks, ignore_claims, checks.len())[b],
        forall|i: int|
            0 <= i < checks.len() && passes_every_check(#[trigger] checks[i], ignore_claims) ==> taken_sites(
                checks,
                ignore_claims,
                checks.len(),
            ).contains(i as usize),
{
    lemma_taken_sites_pass(checks, ignore_claims, checks.len());
}

} // verus!
