//! The ordered queue of chunk positions awaiting generation, kept in an
//! `IndexMap` from position to the presentation handle the chunk was
//! requested for.
use indexmap::IndexMap;
use vstd::prelude::*;

verus! {

/// Declares indexmap's `IndexMap` as an opaque type.
#[verifier::external_type_specification]
#[verifier::external_body]
#[verifier::reject_recursive_types(K)]
#[verifier::reject_recursive_types(V)]
#[verifier::reject_recursive_types(S)]
pub struct ExIndexMap<K, V, S>(IndexMap<K, V, S>);

/// Key of a chunk position in the queue.
pub type QueueKey = (i32, i32, i32);

/// The queue: position to the handle it was requested for, if any.
pub type GenQueue = IndexMap<QueueKey, Option<u64>>;

/// The queue's entries, in insertion order.
pub uninterp spec fn queue_entries(q: GenQueue) -> Seq<(QueueKey, Option<u64>)>;

/// `key` is one of the keys of `entries`.
pub open spec fn has_key(entries: Seq<(QueueKey, Option<u64>)>, key: QueueKey) -> bool {
    exists|p: int| 0 <= p < entries.len() && #[trigger] entries[p].0 == key
}

/// No key occurs twice.
pub open spec fn keys_unique(entries: Seq<(QueueKey, Option<u64>)>) -> bool {
    forall|p: int, r: int|
        0 <= p < entries.len() && 0 <= r < entries.len() && #[trigger] entries[p].0
            == #[trigger] entries[r].0 ==> p == r
}

/// Relies on `IndexMap::new`: an empty map.
#[verifier::external_body]
pub(crate) fn queue_new() -> (r: GenQueue)
    ensures
        queue_entries(r) == Seq::<(QueueKey, Option<u64>)>::empty(),
{
    IndexMap::new()
}

/// Relies on `IndexMap::len`: the number of entries.
#[verifier::external_body]
pub(crate) fn queue_len(q: &GenQueue) -> (r: usize)
    ensures
        r == queue_entries(*q).len(),
{
    q.len()
}

/// Relies on `IndexMap::contains_key`: whether some entry has this key.
#[verifier::external_body]
pub(crate) fn queue_contains(q: &GenQueue, key: QueueKey) -> (r: bool)
    ensures
        r == has_key(queue_entries(*q), key),
{
    q.contains_key(&key)
}

/// Relies on `IndexMap::first`: the first entry in order.
#[verifier::external_body]
pub(crate) fn queue_first(q: &GenQueue) -> (r: Option<(QueueKey, Option<u64>)>)
    ensures
        queue_entries(*q).len() == 0 ==> r is None,
        queue_entries(*q).len() > 0 ==> r == Some(queue_entries(*q)[0]),
{
    q.first().map(|(k, v)| (*k, *v))
}

/// Relies on `IndexMap::insert`: an existing key keeps its place and takes
/// the new value; a new key goes last.
#[verifier::external_body]
pub(crate) fn queue_insert(q: &mut GenQueue, key: QueueKey, value: Option<u64>)
    ensures
        forall|p: int|
            0 <= p < queue_entries(*old(q)).len() && #[trigger] queue_entries(*old(q))[p].0 == key
                ==> queue_entries(*final(q)) == queue_entries(*old(q)).update(p, (key, value)),
        !has_key(queue_entries(*old(q)), key) ==> queue_entries(*final(q)) == queue_entries(
            *old(q),
        ).push((key, value)),
{
    q.insert(key, value);
}

/// Relies on `IndexMap::shift_remove`: the entry with this key is removed
/// and the entries after it keep their order; its value is returned.
#[verifier::external_body]
pub(crate) fn queue_shift_remove(q: &mut GenQueue, key: QueueKey) -> (r: Option<Option<u64>>)
    ensures
        forall|p: int|
            0 <= p < queue_entries(*old(q)).len() && #[trigger] queue_entries(*old(q))[p].0 == key
                ==> queue_entries(*final(q)) == queue_entries(*old(q)).remove(p) && r == Some(
                queue_entries(*old(q))[p].1,
            ),
        !has_key(queue_entries(*old(q)), key) ==> queue_entries(*final(q)) == queue_entries(
            *old(q),
        ) && r is None,
{
    q.shift_remove(&key)
}

/// What an insertion does to the keys: `key` is present with `value`, the
/// other keys are those present before, and keys stay unique.
pub proof fn lemma_insert_keys(
    before: Seq<(QueueKey, Option<u64>)>,
    after: Seq<(QueueKey, Option<u64>)>,
    key: QueueKey,
    value: Option<u64>,
)
    requires
        keys_unique(before),
        forall|p: int|
            0 <= p < before.len() && #[trigger] before[p].0 == key ==> after == before.update(
                p,
                (key, value),
            ),
        !has_key(before, key) ==> after == before.push((key, value)),
    ensures
        keys_unique(after),
        exists|p: int| 0 <= p < after.len() && #[trigger] after[p] == (key, value),
        forall|k: QueueKey| #[trigger] has_key(after, k) <==> has_key(before, k) || k == key,
{
    if has_key(before, key) {
        let p = choose|p: int| 0 <= p < before.len() && #[trigger] before[p].0 == key;
        assert(after == before.update(p, (key, value)));
        assert(after[p] == (key, value));
        assert forall|k: QueueKey| #[trigger] has_key(after, k) <==> has_key(before, k) || k == key by {
            if has_key(before, k) {
                let r = choose|r: int| 0 <= r < before.len() && #[trigger] before[r].0 == k;
                assert(after[r].0 == k);
            }
            if has_key(after, k) {
                let r = choose|r: int| 0 <= r < after.len() && #[trigger] after[r].0 == k;
                if r != p {
                    assert(before[r].0 == k);
                }
            }
        }
    } else {
        assert(after[before.len() as int] == (key, value));
        assert forall|k: QueueKey| #[trigger] has_key(after, k) <==> has_key(before, k) || k == key by {
            if k == key {
                assert(after[before.len() as int].0 == key);
            }
            if has_key(before, k) {
                let r = choose|r: int| 0 <= r < before.len() && #[trigger] before[r].0 == k;
                assert(after[r].0 == k);
            }
            if has_key(after, k) {
                let r = choose|r: int| 0 <= r < after.len() && #[trigger] after[r].0 == k;
                if r < before.len() {
                    assert(before[r].0 == k);
                }
            }
        }
        assert forall|p: int, r: int|
            0 <= p < after.len() && 0 <= r < after.len() && #[trigger] after[p].0 == #[trigger] after[r].0
            implies p == r by {
            if p < before.len() && r == before.len() {
                assert(before[p].0 == key);
            }
            if r < before.len() && p == before.len() {
                assert(before[r].0 == key);
            }
        }
    }
}

/// What a removal does to the keys: `key` is gone, the other keys stay,
/// and keys stay unique.
pub proof fn lemma_remove_keys(
    before: Seq<(QueueKey, Option<u64>)>,
    after: Seq<(QueueKey, Option<u64>)>,
    key: QueueKey,
)
    requires
        keys_unique(before),
        forall|p: int|
            0 <= p < before.len() && #[trigger] before[p].0 == key ==> after == before.remove(p),
        !has_key(before, key) ==> after == before,
    ensures
        keys_unique(after),
        forall|k: QueueKey| #[trigger] has_key(after, k) <==> has_key(before, k) && k != key,
{
    if has_key(before, key) {
        let p = choose|p: int| 0 <= p < before.len() && #[trigger] before[p].0 == key;
        assert(after == before.remove(p));
        assert forall|k: QueueKey| #[trigger] has_key(after, k) <==> has_key(before, k) && k != key by {
            if has_key(before, k) && k != key {
                let r = choose|r: int| 0 <= r < before.len() && #[trigger] before[r].0 == k;
                if r < p {
                    assert(after[r].0 == k);
                } else {
                    assert(r != p);
                    assert(after[r - 1].0 == k);
                }
            }
            if has_key(after, k) {
                let r = choose|r: int| 0 <= r < after.len() && #[trigger] after[r].0 == k;
                if r < p {
                    assert(before[r].0 == k);
                } else {
                    assert(before[r + 1].0 == k);
                    assert(r + 1 != p);
                }
            }
        }
        assert forall|a: int, b: int|
            0 <= a < after.len() && 0 <= b < after.len() && #[trigger] after[a].0 == #[trigger] after[b].0
            implies a == b by {
            let a2 = if a < p { a } else { a + 1 };
            let b2 = if b < p { b } else { b + 1 };
            assert(before[a2].0 == after[a].0);
            assert(before[b2].0 == after[b].0);
        }
    }
}

} // verus!
