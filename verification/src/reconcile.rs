//! Compares the membership that is stored with the membership that is wanted,
//! by identity, and tells which members to add and which to remove.

use crate::models::DbObject;
use crate::seqs::lemma_push_contains;
use std::collections::HashSet;
use vstd::prelude::*;

verus! {

broadcast use vstd::std_specs::hash::group_hash_axioms;

/// The members to add.
pub type Added<T> = Vec<T>;

/// The members to remove.
pub type Removed<T> = Vec<T>;

/// The identifiers of `s`, element by element.
pub open spec fn identities<T: DbObject>(s: Seq<T>) -> Seq<i32> {
    s.map_values(|t: T| t.identity())
}

/// Whether the identifier of a value is none of `ids`.
pub open spec fn lacks<T: DbObject>(ids: Seq<i32>) -> spec_fn(T) -> bool {
    |t: T| !ids.contains(t.identity())
}

/// The elements of `s` whose identifier is none of `ids`, in order.
pub open spec fn absent_from<T: DbObject>(s: Seq<T>, ids: Seq<i32>) -> Seq<T> {
    s.filter(lacks(ids))
}

/// What a sequence of references refers to.
pub open spec fn referents<T>(s: Seq<&T>) -> Seq<T> {
    s.map_values(|r: &T| *r)
}

/// The set of identifiers that `s` holds.
pub open spec fn identity_set<T: DbObject>(s: Seq<T>) -> Set<i32> {
    identities(s).to_set()
}

/// An identifier occurs among the elements of `s` that are absent from `ids`
/// exactly if it occurs in `s` and not in `ids`.
pub proof fn lemma_absent_identities<T: DbObject>(s: Seq<T>, ids: Seq<i32>, id: i32)
    ensures
        identities(absent_from(s, ids)).contains(id) <==> identities(s).contains(id)
            && !ids.contains(id),
{
    let keep = lacks::<T>(ids);
    let kept = s.filter(keep);
    if identities(kept).contains(id) {
        let k = choose|k: int| 0 <= k < identities(kept).len() && identities(kept)[k] == id;
        s.lemma_filter_pred(keep, k);
        s.lemma_filter_contains_rev(keep, kept[k]);
        let j = choose|j: int| 0 <= j < s.len() && s[j] == kept[k];
        assert(identities(s)[j] == id);
    }
    if identities(s).contains(id) && !ids.contains(id) {
        let j = choose|j: int| 0 <= j < identities(s).len() && identities(s)[j] == id;
        s.lemma_filter_contains(keep, j);
        let k = choose|k: int| 0 <= k < kept.len() && kept[k] == s[j];
        assert(identities(kept)[k] == id);
    }
}

/// The reconciler computes a symmetric difference by identity. What is added
/// is what the new membership holds and the old one lacks; what is removed is
/// what the old one holds and the new one lacks; nothing is both added and
/// removed; and the old membership, less what is removed, plus what is added,
/// is the new membership.
pub proof fn lemma_reconciliation<T: DbObject, U: DbObject>(old_list: Seq<T>, new_list: Seq<U>)
    ensures
        ({
            let added = identity_set(absent_from(new_list, identities(old_list)));
            let removed = identity_set(absent_from(old_list, identities(new_list)));
            &&& added == identity_set(new_list).difference(identity_set(old_list))
            &&& removed == identity_set(old_list).difference(identity_set(new_list))
            &&& added.disjoint(removed)
            &&& identity_set(old_list).difference(removed).union(added) == identity_set(new_list)
        }),
{
    let added = identity_set(absent_from(new_list, identities(old_list)));
    let removed = identity_set(absent_from(old_list, identities(new_list)));
    assert forall|id: i32|
        (added.contains(id) <==> identity_set(new_list).contains(id) && !identity_set(
            old_list,
        ).contains(id)) && (removed.contains(id) <==> identity_set(old_list).contains(id)
            && !identity_set(new_list).contains(id)) by {
        lemma_absent_identities(new_list, identities(old_list), id);
        lemma_absent_identities(old_list, identities(new_list), id);
    }
}

/// Where the old and the new membership hold the same identifiers, nothing is
/// added and nothing is removed.
pub proof fn lemma_reconciliation_of_equals<T: DbObject, U: DbObject>(
    old_list: Seq<T>,
    new_list: Seq<U>,
)
    requires
        identity_set(old_list) == identity_set(new_list),
    ensures
        absent_from(new_list, identities(old_list)) == Seq::<U>::empty(),
        absent_from(old_list, identities(new_list)) == Seq::<T>::empty(),
{
    let added = absent_from(new_list, identities(old_list));
    let removed = absent_from(old_list, identities(new_list));
    if added.len() > 0 {
        let id = identities(added)[0];
        lemma_absent_identities(new_list, identities(old_list), id);
        assert(identity_set(new_list).contains(id));
    }
    if removed.len() > 0 {
        let id = identities(removed)[0];
        lemma_absent_identities(old_list, identities(new_list), id);
        assert(identity_set(old_list).contains(id));
    }
}

/// The set of the identifiers of `list`.
fn id_set<T: DbObject>(list: &[T]) -> (ids: HashSet<i32>)
    ensures
        forall|id: i32| ids@.contains(id) <==> identities(list@).contains(id),
{
    let mut ids: HashSet<i32> = HashSet::new();
    let mut i: usize = 0;
    while i < list.len()
        invariant
            i <= list.len(),
            forall|id: i32| ids@.contains(id) <==> identities(list@.take(i as int)).contains(id),
        decreases list.len() - i,
    {
        let ghost before = identities(list@.take(i as int));
        let id = list[i].id();
        ids.insert(id);
        proof {
            assert(identities(list@.take(i as int + 1)) =~= before.push(id));
            assert forall|other: i32|
                ids@.contains(other) <==> before.push(id).contains(other) by {
                lemma_push_contains(before, id, other);
            }
        }
        i += 1;
    }
    assert(list@.take(list.len() as int) =~= list@);
    ids
}

/// The elements of `list` whose identifier is not in `ids`.
fn missing<'a, T: DbObject>(list: &'a [T], ids: &HashSet<i32>, Ghost(others): Ghost<Seq<i32>>) -> (r:
    Vec<&'a T>)
    requires
        forall|id: i32| ids@.contains(id) <==> others.contains(id),
    ensures
        referents(r@) == absent_from(list@, others),
{
    let mut r: Vec<&'a T> = Vec::new();
    let ghost keep = lacks::<T>(others);
    let mut i: usize = 0;
    assert(list@.take(0).filter(keep) =~= Seq::<T>::empty()) by {
        reveal(Seq::filter);
    }
    while i < list.len()
        invariant
            i <= list.len(),
            keep == lacks::<T>(others),
            forall|id: i32| ids@.contains(id) <==> others.contains(id),
            referents(r@) == list@.take(i as int).filter(keep),
        decreases list.len() - i,
    {
        let item = &list[i];
        proof {
            assert(list@.take(i as int + 1) =~= list@.take(i as int).push(*item));
            list@.take(i as int).lemma_filter_push(*item, keep);
        }
        if !ids.contains(&item.id()) {
            r.push(item);
        }
        i += 1;
    }
    assert(list@.take(list.len() as int) =~= list@);
    r
}

/// Tells what changed between two memberships: the elements of `new_list`
/// whose identifier no element of `old_list` has (to be added), and the
/// elements of `old_list` whose identifier no element of `new_list` has (to be
/// removed), each in the order of its list. What is in both is not reported.
/// Nothing is deduplicated: an identifier that a list holds twice is reported
/// twice.
pub fn hashset_comparison<'a, T, U>(old_list: &'a [T], new_list: &'a [U]) -> (r: (
    Added<&'a U>,
    Removed<&'a T>,
)) where T: DbObject, U: DbObject
    ensures
        referents(r.0@) == absent_from(new_list@, identities(old_list@)),
        referents(r.1@) == absent_from(old_list@, identities(new_list@)),
{
    let old_ids = id_set(old_list);
    let new_ids = id_set(new_list);
    let added = missing(new_list, &old_ids, Ghost(identities(old_list@)));
    let removed = missing(old_list, &new_ids, Ghost(identities(new_list@)));
    (added, removed)
}

} // verus!
