//! The keyed cache model behind every feed service: an ordered collection of
//! entries, each holding a key, the time it was last written, and a value.
//! Staleness is time-based: an absent entry is always stale, an absent TTL
//! means "always refresh", and otherwise an entry is stale once its age
//! exceeds the TTL.

use crate::search::{
    find_first_where, lemma_find_first_where_at, lemma_find_first_where_ext,
    lemma_find_first_where_props, lemma_find_first_where_push,
};
use crate::text::str_eq;
use vstd::prelude::*;

verus! {

/// One cached value: key, last-write time in seconds, and the value itself.
pub struct Entry<V> {
    pub key: String,
    pub written: u64,
    pub val: V,
}

pub open spec fn key_is<V>(k: Seq<char>) -> spec_fn(Entry<V>) -> bool {
    |e: Entry<V>| e.key@ == k
}

/// Index of the entry stored under `k`, if any.
pub open spec fn find_key<V>(entries: Seq<Entry<V>>, k: Seq<char>) -> Option<int> {
    find_first_where(entries, key_is::<V>(k))
}

/// The value stored under `k`, if any.
pub open spec fn val_for<V>(entries: Seq<Entry<V>>, k: Seq<char>) -> Option<V> {
    match find_key(entries, k) {
        Some(i) => Some(entries[i].val),
        None => None,
    }
}

/// The last-write time of the entry stored under `k`, if any.
pub open spec fn written_for<V>(entries: Seq<Entry<V>>, k: Seq<char>) -> Option<u64> {
    match find_key(entries, k) {
        Some(i) => Some(entries[i].written),
        None => None,
    }
}

/// The staleness rule shared by all feeds: no entry or no TTL is always
/// stale; otherwise the entry is stale exactly when its age exceeds the TTL.
pub open spec fn stale_spec<V>(
    entries: Seq<Entry<V>>,
    k: Seq<char>,
    ttl: Option<u64>,
    now: u64,
) -> bool {
    match written_for(entries, k) {
        None => true,
        Some(w) => match ttl {
            None => true,
            Some(t) => now > w + t,
        },
    }
}

/// Linear scan for the entry stored under `key`.
pub fn find_entry<V>(entries: &Vec<Entry<V>>, key: &str) -> (r: Option<usize>)
    ensures
        match r {
            Some(i) => i < entries@.len() && entries@[i as int].key@ == key@ && find_key(
                entries@,
                key@,
            ) == Some(i as int),
            None => find_key(entries@, key@) is None,
        },
{
    let n: usize = entries.len();
    let mut i: usize = 0;
    while i < n
        invariant
            n == entries@.len(),
            i <= n,
            forall|j: int| 0 <= j < i ==> entries@[j].key@ != key@,
        decreases n - i,
    {
        let e = &entries[i];
        if str_eq(e.key.as_str(), key) {
            proof {
                lemma_find_first_where_at(entries@, key_is::<V>(key@), i as int);
            }
            return Some(i);
        }
        i = i + 1;
    }
    proof {
        lemma_find_first_where_props(entries@, key_is::<V>(key@));
    }
    None
}

/// Whether the value under `key` must be refreshed at time `now`.
pub fn stale_entries<V>(entries: &Vec<Entry<V>>, key: &str, ttl: Option<u64>, now: u64) -> (r:
    bool)
    ensures
        r == stale_spec(entries@, key@, ttl, now),
{
    match find_entry(entries, key) {
        None => true,
        Some(i) => match ttl {
            None => true,
            Some(t) => {
                let e = &entries[i];
                (now as u128) > (e.written as u128) + (t as u128)
            },
        },
    }
}

/// Store `val` under `key` at time `now`, replacing any earlier entry and
/// leaving every other key untouched.
pub fn write_entry<V>(entries: &mut Vec<Entry<V>>, key: &str, val: V, now: u64)
    ensures
        val_for(final(entries)@, key@) matches Some(v) && v == val,
        written_for(final(entries)@, key@) == Some(now),
        forall|k: Seq<char>|
            k != key@ ==> #[trigger] val_for(final(entries)@, k) == val_for(old(entries)@, k),
        forall|k: Seq<char>|
            k != key@ ==> #[trigger] written_for(final(entries)@, k) == written_for(
                old(entries)@,
                k,
            ),
{
    let ghost before = entries@;
    match find_entry(entries, key) {
        Some(i) => {
            let e = entries.remove(i);
            let e2 = Entry { key: e.key, written: now, val };
            let ghost ge2 = e2;
            entries.insert(i, e2);
            proof {
                assert(entries@ =~= before.update(i as int, ge2));
                assert(ge2.key@ == key@);
                assert forall|k: Seq<char>| #[trigger] find_key(entries@, k) == find_key(
                    before,
                    k,
                ) by {
                    lemma_find_first_where_ext(entries@, before, key_is::<V>(k));
                }
                assert forall|k: Seq<char>|
                    k != key@ implies #[trigger] val_for(entries@, k) == val_for(before, k) by {
                    lemma_find_first_where_props(before, key_is::<V>(k));
                }
                assert forall|k: Seq<char>|
                    k != key@ implies #[trigger] written_for(entries@, k) == written_for(
                    before,
                    k,
                ) by {
                    lemma_find_first_where_props(before, key_is::<V>(k));
                }
            }
        },
        None => {
            let e2 = Entry { key: key.to_owned(), written: now, val };
            let ghost ge2 = e2;
            entries.push(e2);
            proof {
                assert(entries@ =~= before.push(ge2));
                assert(ge2.key@ == key@);
                assert forall|k: Seq<char>| #[trigger] find_key(entries@, k) == (match find_key(
                    before,
                    k,
                ) {
                    Some(i) => Some(i),
                    None => if k == key@ {
                        Some(before.len() as int)
                    } else {
                        None
                    },
                }) by {
                    lemma_find_first_where_push(before, key_is::<V>(k), ge2);
                }
                assert forall|k: Seq<char>|
                    k != key@ implies #[trigger] val_for(entries@, k) == val_for(before, k) by {
                    lemma_find_first_where_props(before, key_is::<V>(k));
                }
                assert forall|k: Seq<char>|
                    k != key@ implies #[trigger] written_for(entries@, k) == written_for(
                    before,
                    k,
                ) by {
                    lemma_find_first_where_props(before, key_is::<V>(k));
                }
            }
        },
    }
}

/// Refresh the last-write time of the entry at index `i`, keeping its key and
/// value.
pub fn touch_entry<V>(entries: &mut Vec<Entry<V>>, i: usize, now: u64)
    requires
        i < old(entries)@.len(),
    ensures
        final(entries)@.len() == old(entries)@.len(),
        forall|j: int|
            0 <= j < old(entries)@.len() && j != i ==> final(entries)@[j] == old(entries)@[j],
        final(entries)@[i as int].key == old(entries)@[i as int].key,
        final(entries)@[i as int].val == old(entries)@[i as int].val,
        final(entries)@[i as int].written == now,
{
    let e = entries.remove(i);
    let e2 = Entry { key: e.key, written: now, val: e.val };
    entries.insert(i, e2);
}

/// Searching is unchanged by a touch: the keys did not move.  Stated for the
/// callers of `touch_entry`, which need the entry map afterwards.
pub proof fn lemma_same_keys_same_find<V>(s1: Seq<Entry<V>>, s2: Seq<Entry<V>>)
    requires
        s1.len() == s2.len(),
        forall|j: int| 0 <= j < s1.len() ==> s1[j].key@ == s2[j].key@,
    ensures
        forall|k: Seq<char>| #[trigger] find_key(s1, k) == find_key(s2, k),
{
    assert forall|k: Seq<char>| #[trigger] find_key(s1, k) == find_key(s2, k) by {
        lemma_find_first_where_ext(s1, s2, key_is::<V>(k));
    }
}

} // verus!
