//! The event feed: a raw cache of provider records and a domain cache of
//! normalized events, both keyed by game, with last-write-wins upsert by
//! event identity and the staleness-gated update protocol.

use crate::event_model::{
    mapped_event_matches, mirror_matches, ApiGameEvent, PlayByPlay, RawPlayByPlay,
};
use crate::search::{
    find_first_where, lemma_find_first_where_at, lemma_find_first_where_ext,
    lemma_find_first_where_props, lemma_find_first_where_push,
};
use crate::store::{
    find_entry, find_key, key_is, stale_entries, touch_entry, val_for, write_entry, written_for,
    Entry,
};
use crate::text::str_eq;
use vstd::prelude::*;

verus! {

// ---------------------------------------------------------------------------
// Upsert by identity
// ---------------------------------------------------------------------------

pub open spec fn raw_id_is(id: int) -> spec_fn(RawPlayByPlay) -> bool {
    |x: RawPlayByPlay| x.event_id == id
}

pub open spec fn find_raw_id(s: Seq<RawPlayByPlay>, id: int) -> Option<int> {
    find_first_where(s, raw_id_is(id))
}

/// Insert-or-replace by event id: replace in place (position preserved) when
/// the identity is already present, append otherwise.
pub open spec fn upsert_raw(s: Seq<RawPlayByPlay>, e: RawPlayByPlay) -> Seq<RawPlayByPlay> {
    match find_raw_id(s, e.event_id as int) {
        Some(i) => s.update(i, e),
        None => s.push(e),
    }
}

pub open spec fn dom_id_is(id: Seq<char>) -> spec_fn(ApiGameEvent) -> bool {
    |x: ApiGameEvent| x.event_id@ == id
}

pub open spec fn find_dom_id(s: Seq<ApiGameEvent>, id: Seq<char>) -> Option<int> {
    find_first_where(s, dom_id_is(id))
}

/// Insert-or-replace by event id string, as `upsert_raw` for domain events.
pub open spec fn upsert_dom(s: Seq<ApiGameEvent>, e: ApiGameEvent) -> Seq<ApiGameEvent> {
    match find_dom_id(s, e.event_id@) {
        Some(i) => s.update(i, e),
        None => s.push(e),
    }
}

fn upsert_raw_vec(events: &mut Vec<RawPlayByPlay>, event: RawPlayByPlay) -> (r: bool)
    ensures
        final(events)@ == upsert_raw(old(events)@, event),
        r == (find_raw_id(old(events)@, event.event_id as int) is None),
{
    let n: usize = events.len();
    let mut i: usize = 0;
    while i < n
        invariant
            n == events@.len(),
            i <= n,
            events@ == old(events)@,
            forall|j: int| 0 <= j < i ==> events@[j].event_id != event.event_id,
        decreases n - i,
    {
        if events[i].event_id == event.event_id {
            proof {
                lemma_find_first_where_at(events@, raw_id_is(event.event_id as int), i as int);
            }
            let ghost prev = events@;
            let ghost ge = event;
            let _replaced = events.remove(i);
            events.insert(i, event);
            proof {
                assert(events@ =~= prev.update(i as int, ge));
            }
            return false;
        }
        i = i + 1;
    }
    proof {
        lemma_find_first_where_props(events@, raw_id_is(event.event_id as int));
    }
    events.push(event);
    true
}

fn upsert_dom_vec(events: &mut Vec<ApiGameEvent>, event: ApiGameEvent) -> (r: bool)
    ensures
        final(events)@ == upsert_dom(old(events)@, event),
        r == (find_dom_id(old(events)@, event.event_id@) is None),
{
    let n: usize = events.len();
    let mut i: usize = 0;
    while i < n
        invariant
            n == events@.len(),
            i <= n,
            events@ == old(events)@,
            forall|j: int| 0 <= j < i ==> events@[j].event_id@ != event.event_id@,
        decreases n - i,
    {
        let same = str_eq(events[i].event_id.as_str(), event.event_id.as_str());
        if same {
            proof {
                lemma_find_first_where_at(events@, dom_id_is(event.event_id@), i as int);
            }
            let ghost prev = events@;
            let ghost ge = event;
            let _replaced = events.remove(i);
            events.insert(i, event);
            proof {
                assert(events@ =~= prev.update(i as int, ge));
            }
            return false;
        }
        i = i + 1;
    }
    proof {
        lemma_find_first_where_props(events@, dom_id_is(event.event_id@));
    }
    events.push(event);
    true
}

// ---------------------------------------------------------------------------
// The service
// ---------------------------------------------------------------------------

/// Event feed service: one store of raw provider records and one of
/// normalized events, each an ordered sequence per game.
pub struct EventService {
    raw: Vec<Entry<Vec<RawPlayByPlay>>>,
    mapped: Vec<Entry<Vec<ApiGameEvent>>>,
}

impl EventService {
    /// The raw records cached for game `k`; empty when none were written.
    pub closed spec fn raw_events(self, k: Seq<char>) -> Seq<RawPlayByPlay> {
        match val_for(self.raw@, k) {
            Some(v) => v@,
            None => Seq::empty(),
        }
    }

    /// When the raw cache for game `k` was last written, if ever.
    pub closed spec fn raw_written(self, k: Seq<char>) -> Option<u64> {
        written_for(self.raw@, k)
    }

    /// The staleness rule: a game never written and an absent TTL are always
    /// stale; otherwise the entry is stale once its age exceeds the TTL.
    pub open spec fn raw_stale(self, k: Seq<char>, ttl: Option<u64>, now: u64) -> bool {
        match self.raw_written(k) {
            None => true,
            Some(w) => match ttl {
                None => true,
                Some(t) => now > w + t,
            },
        }
    }

    /// The normalized events stored for game `k` by push delivery.
    pub closed spec fn domain_events(self, k: Seq<char>) -> Seq<ApiGameEvent> {
        match val_for(self.mapped@, k) {
            Some(v) => v@,
            None => Seq::empty(),
        }
    }

    pub fn new() -> (r: EventService)
        ensures
            forall|k: Seq<char>| #[trigger] r.raw_written(k) is None,
            forall|k: Seq<char>| #[trigger] r.raw_events(k) == Seq::<RawPlayByPlay>::empty(),
            forall|k: Seq<char>| #[trigger] r.domain_events(k) == Seq::<ApiGameEvent>::empty(),
    {
        EventService { raw: Vec::new(), mapped: Vec::new() }
    }

    /// Whether the raw cache for `game_uuid` must be refreshed at `now`.
    pub fn is_stale(&self, game_uuid: &str, ttl: Option<u64>, now: u64) -> (r: bool)
        ensures
            r == self.raw_stale(game_uuid@, ttl, now),
    {
        stale_entries(&self.raw, game_uuid, ttl, now)
    }

    /// The staleness-gated fetch-or-serve protocol: serve the cached raw
    /// records while fresh, otherwise take the fetched payload — or empty
    /// when the fetch failed — persist it unconditionally, and return the
    /// normalized events.  `fetched` is consulted only when the cache was
    /// stale, and a failed fetch still writes (and returns) an empty
    /// sequence rather than failing.
    pub fn update(
        &mut self,
        game_uuid: &str,
        ttl: Option<u64>,
        now: u64,
        fetched: Option<Vec<RawPlayByPlay>>,
    ) -> (r: Option<Vec<ApiGameEvent>>)
        ensures
            ({
                let src = if old(self).raw_stale(game_uuid@, ttl, now) {
                    match fetched {
                        Some(v) => v@,
                        None => Seq::<RawPlayByPlay>::empty(),
                    }
                } else {
                    old(self).raw_events(game_uuid@)
                };
                &&& final(self).raw_events(game_uuid@) == src
                &&& final(self).raw_written(game_uuid@) == Some(now)
                &&& r matches Some(es) && es@.len() == src.len() && (forall|j: int|
                    0 <= j < src.len() ==> mapped_event_matches(
                        #[trigger] es@[j],
                        src[j],
                        game_uuid@,
                    ))
            }),
            forall|k2: Seq<char>|
                k2 != game_uuid@ ==> #[trigger] final(self).raw_events(k2) == old(
                    self,
                ).raw_events(k2),
            forall|k2: Seq<char>|
                k2 != game_uuid@ ==> #[trigger] final(self).raw_written(k2) == old(
                    self,
                ).raw_written(k2),
            forall|k2: Seq<char>| #[trigger]
                final(self).domain_events(k2) == old(self).domain_events(k2),
    {
        let stale = stale_entries(&self.raw, game_uuid, ttl, now);
        if stale {
            let raw_events = match fetched {
                Some(v) => v,
                None => Vec::new(),
            };
            let mapped = map_events(&raw_events, game_uuid);
            write_entry(&mut self.raw, game_uuid, raw_events, now);
            Some(mapped)
        } else {
            let idx = find_entry(&self.raw, game_uuid).unwrap();
            let mapped = map_events(&self.raw[idx].val, game_uuid);
            let ghost before = self.raw@;
            touch_entry(&mut self.raw, idx, now);
            proof {
                crate::store::lemma_same_keys_same_find::<Vec<RawPlayByPlay>>(self.raw@, before);
                assert forall|k2: Seq<char>|
                    k2 != game_uuid@ implies #[trigger] val_for(self.raw@, k2) == val_for(
                    before,
                    k2,
                ) by {
                    lemma_find_first_where_props(before, key_is::<Vec<RawPlayByPlay>>(k2));
                }
                assert forall|k2: Seq<char>|
                    k2 != game_uuid@ implies #[trigger] written_for(self.raw@, k2) == written_for(
                    before,
                    k2,
                ) by {
                    lemma_find_first_where_props(before, key_is::<Vec<RawPlayByPlay>>(k2));
                }
            }
            Some(mapped)
        }
    }

    /// Direct upsert of one raw record, for records arriving by push rather
    /// than poll.  True exactly when the identity was not present yet.
    pub fn store_raw(&mut self, game_uuid: &str, event: RawPlayByPlay, now: u64) -> (r: bool)
        ensures
            final(self).raw_events(game_uuid@) == upsert_raw(
                old(self).raw_events(game_uuid@),
                event,
            ),
            r == (find_raw_id(old(self).raw_events(game_uuid@), event.event_id as int) is None),
            final(self).raw_written(game_uuid@) == Some(now),
            forall|k2: Seq<char>|
                k2 != game_uuid@ ==> #[trigger] final(self).raw_events(k2) == old(
                    self,
                ).raw_events(k2),
            forall|k2: Seq<char>|
                k2 != game_uuid@ ==> #[trigger] final(self).raw_written(k2) == old(
                    self,
                ).raw_written(k2),
            forall|k2: Seq<char>| #[trigger]
                final(self).domain_events(k2) == old(self).domain_events(k2),
    {
        let ghost before = self.raw@;
        match find_entry(&self.raw, game_uuid) {
            Some(i) => {
                proof {
                    lemma_find_first_where_props(before, key_is::<Vec<RawPlayByPlay>>(game_uuid@));
                }
                let mut e = self.raw.remove(i);
                let r = upsert_raw_vec(&mut e.val, event);
                let e2 = Entry { key: e.key, written: now, val: e.val };
                let ghost ge2 = e2;
                self.raw.insert(i, e2);
                proof {
                    assert(self.raw@ =~= before.update(i as int, ge2));
                    assert(ge2.key@ == game_uuid@);
                    assert forall|k2: Seq<char>| #[trigger] find_key(self.raw@, k2) == find_key(
                        before,
                        k2,
                    ) by {
                        lemma_find_first_where_ext(
                            self.raw@,
                            before,
                            key_is::<Vec<RawPlayByPlay>>(k2),
                        );
                    }
                    assert forall|k2: Seq<char>|
                        k2 != game_uuid@ implies #[trigger] val_for(self.raw@, k2) == val_for(
                        before,
                        k2,
                    ) by {
                        lemma_find_first_where_props(before, key_is::<Vec<RawPlayByPlay>>(k2));
                    }
                    assert forall|k2: Seq<char>|
                        k2 != game_uuid@ implies #[trigger] written_for(self.raw@, k2)
                        == written_for(before, k2) by {
                        lemma_find_first_where_props(before, key_is::<Vec<RawPlayByPlay>>(k2));
                    }
                }
                r
            },
            None => {
                let ghost ge = event;
                let mut v: Vec<RawPlayByPlay> = Vec::new();
                v.push(event);
                proof {
                    lemma_find_first_where_props(
                        Seq::<RawPlayByPlay>::empty(),
                        raw_id_is(ge.event_id as int),
                    );
                    assert(upsert_raw(Seq::<RawPlayByPlay>::empty(), ge) =~= v@);
                }
                write_entry(&mut self.raw, game_uuid, v, now);
                true
            },
        }
    }

    /// Direct upsert of one normalized event, for push delivery.  True
    /// exactly when the identity was not present yet.
    pub fn store(&mut self, game_uuid: &str, event: ApiGameEvent, now: u64) -> (r: bool)
        ensures
            final(self).domain_events(game_uuid@) == upsert_dom(
                old(self).domain_events(game_uuid@),
                event,
            ),
            r == (find_dom_id(old(self).domain_events(game_uuid@), event.event_id@) is None),
            forall|k2: Seq<char>|
                k2 != game_uuid@ ==> #[trigger] final(self).domain_events(k2) == old(
                    self,
                ).domain_events(k2),
            forall|k2: Seq<char>| #[trigger] final(self).raw_events(k2) == old(self).raw_events(
                k2,
            ),
            forall|k2: Seq<char>| #[trigger] final(self).raw_written(k2) == old(self).raw_written(
                k2,
            ),
    {
        let ghost before = self.mapped@;
        match find_entry(&self.mapped, game_uuid) {
            Some(i) => {
                proof {
                    lemma_find_first_where_props(before, key_is::<Vec<ApiGameEvent>>(game_uuid@));
                }
                let mut e = self.mapped.remove(i);
                let r = upsert_dom_vec(&mut e.val, event);
                let e2 = Entry { key: e.key, written: now, val: e.val };
                let ghost ge2 = e2;
                self.mapped.insert(i, e2);
                proof {
                    assert(self.mapped@ =~= before.update(i as int, ge2));
                    assert(ge2.key@ == game_uuid@);
                    assert forall|k2: Seq<char>| #[trigger] find_key(self.mapped@, k2) == find_key(
                        before,
                        k2,
                    ) by {
                        lemma_find_first_where_ext(
                            self.mapped@,
                            before,
                            key_is::<Vec<ApiGameEvent>>(k2),
                        );
                    }
                    assert forall|k2: Seq<char>|
                        k2 != game_uuid@ implies #[trigger] val_for(self.mapped@, k2) == val_for(
                        before,
                        k2,
                    ) by {
                        lemma_find_first_where_props(before, key_is::<Vec<ApiGameEvent>>(k2));
                    }
                }
                r
            },
            None => {
                let ghost ge = event;
                let mut v: Vec<ApiGameEvent> = Vec::new();
                v.push(event);
                proof {
                    lemma_find_first_where_props(
                        Seq::<ApiGameEvent>::empty(),
                        dom_id_is(ge.event_id@),
                    );
                    assert(upsert_dom(Seq::<ApiGameEvent>::empty(), ge) =~= v@);
                }
                write_entry(&mut self.mapped, game_uuid, v, now);
                true
            },
        }
    }

    /// Cache-only read of the raw records for `game_uuid`, tagged with the
    /// game; reads never trigger a fetch.
    pub fn read(&self, game_uuid: &str) -> (r: Vec<PlayByPlay>)
        ensures
            r@.len() == self.raw_events(game_uuid@).len(),
            forall|j: int|
                0 <= j < r@.len() ==> mirror_matches(
                    #[trigger] r@[j],
                    self.raw_events(game_uuid@)[j],
                    game_uuid@,
                ),
    {
        match find_entry(&self.raw, game_uuid) {
            None => Vec::new(),
            Some(i) => {
                let src = &self.raw[i].val;
                let n: usize = src.len();
                let mut out: Vec<PlayByPlay> = Vec::new();
                let mut j: usize = 0;
                while j < n
                    invariant
                        n == src@.len(),
                        j <= n,
                        out@.len() == j,
                        src@ == self.raw_events(game_uuid@),
                        forall|m: int|
                            0 <= m < j ==> mirror_matches(#[trigger] out@[m], src@[m], game_uuid@),
                    decreases n - j,
                {
                    out.push(src[j].into_mapped(game_uuid));
                    j = j + 1;
                }
                out
            },
        }
    }
}

/// Normalize a whole fetched sequence, in order.
fn map_events(events: &Vec<RawPlayByPlay>, game_uuid: &str) -> (r: Vec<ApiGameEvent>)
    ensures
        r@.len() == events@.len(),
        forall|j: int|
            0 <= j < events@.len() ==> mapped_event_matches(
                #[trigger] r@[j],
                events@[j],
                game_uuid@,
            ),
{
    let n: usize = events.len();
    let mut out: Vec<ApiGameEvent> = Vec::new();
    let mut j: usize = 0;
    while j < n
        invariant
            n == events@.len(),
            j <= n,
            out@.len() == j,
            forall|m: int|
                0 <= m < j ==> mapped_event_matches(#[trigger] out@[m], events@[m], game_uuid@),
        decreases n - j,
    {
        out.push(events[j].into_mapped_event(game_uuid));
        j = j + 1;
    }
    out
}

// ---------------------------------------------------------------------------
// Laws of the merge store and the staleness gate
// ---------------------------------------------------------------------------

/// Law: upserting an identical raw record twice leaves the stored sequence
/// unchanged in content and order.
pub proof fn lemma_upsert_raw_idempotent(s: Seq<RawPlayByPlay>, e: RawPlayByPlay)
    ensures
        upsert_raw(upsert_raw(s, e), e) == upsert_raw(s, e),
{
    let id = e.event_id as int;
    lemma_find_first_where_props(s, raw_id_is(id));
    match find_raw_id(s, id) {
        Some(i) => {
            let s1 = s.update(i, e);
            lemma_find_first_where_at(s1, raw_id_is(id), i);
            assert(upsert_raw(s1, e) =~= s1);
        },
        None => {
            let s1 = s.push(e);
            lemma_find_first_where_push(s, raw_id_is(id), e);
            assert(upsert_raw(s1, e) =~= s1);
        },
    }
}

/// Law: for two raw records sharing identity, the second upsert replaces the
/// first in place — same index, same length, never a duplicate.
pub proof fn lemma_upsert_raw_replaces(s: Seq<RawPlayByPlay>, e1: RawPlayByPlay, e2: RawPlayByPlay)
    requires
        e1.event_id == e2.event_id,
    ensures
        ({
            let s1 = upsert_raw(s, e1);
            let i = match find_raw_id(s, e1.event_id as int) {
                Some(j) => j,
                None => s.len() as int,
            };
            &&& 0 <= i < s1.len()
            &&& s1[i] == e1
            &&& upsert_raw(s1, e2) == s1.update(i, e2)
            &&& upsert_raw(s1, e2).len() == s1.len()
        }),
{
    let id = e1.event_id as int;
    lemma_find_first_where_props(s, raw_id_is(id));
    match find_raw_id(s, id) {
        Some(i) => {
            let s1 = s.update(i, e1);
            lemma_find_first_where_at(s1, raw_id_is(id), i);
        },
        None => {
            let s1 = s.push(e1);
            lemma_find_first_where_push(s, raw_id_is(id), e1);
        },
    }
}

/// Law: upserting an identical normalized event twice leaves the stored
/// sequence unchanged in content and order.
pub proof fn lemma_upsert_dom_idempotent(s: Seq<ApiGameEvent>, e: ApiGameEvent)
    ensures
        upsert_dom(upsert_dom(s, e), e) == upsert_dom(s, e),
{
    let id = e.event_id@;
    lemma_find_first_where_props(s, dom_id_is(id));
    match find_dom_id(s, id) {
        Some(i) => {
            let s1 = s.update(i, e);
            lemma_find_first_where_at(s1, dom_id_is(id), i);
            assert(upsert_dom(s1, e) =~= s1);
        },
        None => {
            let s1 = s.push(e);
            lemma_find_first_where_push(s, dom_id_is(id), e);
            assert(upsert_dom(s1, e) =~= s1);
        },
    }
}

/// Law: for two normalized events sharing identity, the second upsert
/// replaces the first in place — same index, same length, never a duplicate.
pub proof fn lemma_upsert_dom_replaces(s: Seq<ApiGameEvent>, e1: ApiGameEvent, e2: ApiGameEvent)
    requires
        e1.event_id@ == e2.event_id@,
    ensures
        ({
            let s1 = upsert_dom(s, e1);
            let i = match find_dom_id(s, e1.event_id@) {
                Some(j) => j,
                None => s.len() as int,
            };
            &&& 0 <= i < s1.len()
            &&& s1[i] == e1
            &&& upsert_dom(s1, e2) == s1.update(i, e2)
            &&& upsert_dom(s1, e2).len() == s1.len()
        }),
{
    let id = e1.event_id@;
    lemma_find_first_where_props(s, dom_id_is(id));
    match find_dom_id(s, id) {
        Some(i) => {
            let s1 = s.update(i, e1);
            lemma_find_first_where_at(s1, dom_id_is(id), i);
        },
        None => {
            let s1 = s.push(e1);
            lemma_find_first_where_push(s, dom_id_is(id), e1);
        },
    }
}

/// Law: after a write at time `t`, a TTL of `ttl` keeps the entry fresh
/// through `t + ttl` and stale strictly after it — so a second update within
/// the TTL serves the cache and never consults the fetcher, while one after
/// the TTL refreshes.
pub proof fn lemma_staleness_gate(svc: EventService, k: Seq<char>, t: u64, ttl: u64, now: u64)
    requires
        svc.raw_written(k) == Some(t),
    ensures
        now <= t + ttl ==> !svc.raw_stale(k, Some(ttl), now),
        now > t + ttl ==> svc.raw_stale(k, Some(ttl), now),
{
}

} // verus!
