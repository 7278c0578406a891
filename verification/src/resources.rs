//! Thinning out a resource (an admin command): which resources are deleted,
//! and how the world's target count of the resource follows.
use spacetimedb::rand::seq::SliceRandom;
use vstd::prelude::*;

verus! {

broadcast use vstd::seq_lib::group_seq_properties;

/// The world's target count of one resource.
#[derive(Clone, Copy, Debug, PartialEq, Eq)]
pub struct ResourceLogEntry {
    pub resource_id: i32,
    pub world_target: i32,
}

/// `i` is the first entry of the resource.
pub open spec fn is_first_entry(entries: Seq<ResourceLogEntry>, resource_id: i32, i: int) -> bool {
    &&& 0 <= i < entries.len()
    &&& entries[i].resource_id == resource_id
    &&& forall|j: int| 0 <= j < i ==> (#[trigger] entries[j]).resource_id != resource_id
}

/// Puts the ids in a random order with `rand`'s `SliceRandom::shuffle` on
/// the reducer's generator. Claimed: the result holds the same ids, each as
/// often (a permutation); which order comes out depends on the generator.
#[verifier::external_body]
fn shuffle_ids(rng: &spacetimedb::StdbRng, ids: Vec<u64>) -> (shuffled: Vec<u64>)
    ensures
        shuffled@.to_multiset() == ids@.to_multiset(),
{
    let mut ids = ids;
    let mut r = rng;
    ids.shuffle(&mut r);
    ids
}

/// The resources deleted: `delete_count` of the matching resources, drawn
/// at random (the first ones of a random order). Every resource is chosen at
/// most as often as it is listed.
pub fn resources_to_delete(rng: &spacetimedb::StdbRng, resource_ids: Vec<u64>, delete_count: usize) -> (chosen: Vec<u64>)
    requires
        delete_count <= resource_ids@.len(),
    ensures
        chosen@.len() == delete_count,
        chosen@.to_multiset().subset_of(resource_ids@.to_multiset()),
{
    let ghost original = resource_ids@;
    let shuffled = shuffle_ids(rng, resource_ids);
    proof {
        assert(shuffled@.len() == original.len()) by {
            shuffled@.to_multiset_ensures();
            original.to_multiset_ensures();
        }
    }
    let mut chosen: Vec<u64> = Vec::new();
    for i in 0..delete_count
        invariant
            delete_count <= shuffled@.len(),
            chosen@ == shuffled@.take(i as int),
    {
        chosen.push(shuffled[i]);
        proof {
            assert(shuffled@.take(i + 1) =~= shuffled@.take(i as int).push(shuffled@[i as int]));
        }
    }
    proof {
        let s = shuffled@;
        let n = delete_count as int;
        assert(s =~= s.take(n) + s.skip(n));
        vstd::seq_lib::lemma_multiset_commutative(s.take(n), s.skip(n));
        assert forall|v: u64| s.take(n).to_multiset().count(v) <= original.to_multiset().count(v) by {
            broadcast use vstd::multiset::group_multiset_axioms;

            assert(s.to_multiset().count(v) == s.take(n).to_multiset().count(v) + s.skip(n).to_multiset().count(v));
        }
    }
    chosen
}

/// Lowers the world's target count of the resource by the number of
/// deleted resources, in its first entry. Returns whether the resource has
/// an entry; without one nothing changes.
pub fn lower_world_target(entries: &mut Vec<ResourceLogEntry>, resource_id: i32, delete_count: usize) -> (found: bool)
    requires
        forall|i: int|
            is_first_entry(old(entries)@, resource_id, i) ==> delete_count <= i32::MAX && old(entries)@[i].world_target
                - delete_count >= i32::MIN,
    ensures
        found == exists|i: int| is_first_entry(old(entries)@, resource_id, i),
        !found ==> final(entries)@ == old(entries)@,
        forall|i: int|
            is_first_entry(old(entries)@, resource_id, i) ==> final(entries)@ == old(entries)@.update(
                i,
                ResourceLogEntry { world_target: (old(entries)@[i].world_target - delete_count) as i32, ..old(entries)@[i] },
            ),
{
    let n = entries.len();
    let mut i: usize = 0;
    while i < n
        invariant
            n == entries@.len(),
            entries@ == old(entries)@,
            i <= n,
            forall|j: int| 0 <= j < i ==> (#[trigger] entries@[j]).resource_id != resource_id,
            forall|k: int|
                is_first_entry(old(entries)@, resource_id, k) ==> delete_count <= i32::MAX && old(entries)@[k].world_target
                    - delete_count >= i32::MIN,
        decreases n - i,
    {
        if entries[i].resource_id == resource_id {
            proof {
                assert(is_first_entry(old(entries)@, resource_id, i as int));
                assert forall|k: int| is_first_entry(old(entries)@, resource_id, k) implies k == i by {
                    if k < i {
                        assert(entries@[k].resource_id != resource_id);
                    } else if k > i {
                        assert(old(entries)@[i as int].resource_id == resource_id);
                    }
                }
            }
            let entry = entries[i];
            let count = delete_count as i32;
            entries.set(i, ResourceLogEntry { world_target: entry.world_target - count, ..entry });
            return true;
        }
        i = i + 1;
    }
    proof {
        assert forall|k: int| !is_first_entry(old(entries)@, resource_id, k) by {
            if 0 <= k < n {
                assert(entries@[k].resource_id != resource_id);
            }
        }
    }
    false
}

} // verus!
