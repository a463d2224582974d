//! The canonical event store: normalized webhook deliveries with filtered
//! search.
//!
//! Rows live in insertion order and ids are assigned monotonically from 1,
//! so reverse insertion order is newest-first; every listing returns rows in
//! that order. Conjunctive filters follow the dashboard's semantics: absent
//! predicates are omitted, equality filters on optional columns exclude rows
//! without a value, and a non-empty free-text term must occur
//! case-insensitively in the payload's canonical text.

use vstd::prelude::*;

use crate::json::JsonValue;
use crate::strutil::spec_contains_ci;
use crate::strutil::str_eq;
use crate::strutil::seq_has_str;
use crate::strutil::strictly_ascending;
use crate::strutil::insert_sorted_unique;
use crate::strutil::contains_ci;
use crate::text::payload_text;
use crate::text::render_payload;

verus! {

/// A normalized webhook delivery, as persisted.
pub struct Event {
    pub id: i64,
    pub source: String,
    pub event_type: String,
    pub action: Option<String>,
    pub actor_name: Option<String>,
    pub actor_email: Option<String>,
    pub actor_id: Option<String>,
    pub raw_event: JsonValue,
    pub delivery_id: String,
    pub signature: Option<String>,
    pub received_at: i64,
    pub processed: bool,
    pub processed_at: Option<i64>,
    pub repository_id: Option<i64>,
}

/// The caller-supplied part of a new event row.
pub struct CreateEvent {
    pub source: String,
    pub event_type: String,
    pub action: Option<String>,
    pub actor_name: Option<String>,
    pub actor_email: Option<String>,
    pub actor_id: Option<String>,
    pub raw_event: JsonValue,
    pub delivery_id: String,
    pub signature: Option<String>,
    pub repository_id: Option<i64>,
}

/// In-memory event store; rows in insertion order.
pub struct EventStore {
    pub events: Vec<Event>,
}

/// The sequence of `&Event` results, as values.
pub open spec fn deref_events(s: Seq<&Event>) -> Seq<Event> {
    s.map_values(|e: &Event| *e)
}

impl EventStore {
    /// Ids are assigned in insertion order starting from 1.
    pub open spec fn well_formed(self) -> bool {
        forall|i: int| 0 <= i < self.events@.len() ==> (#[trigger] self.events@[i]).id == i + 1
    }

    pub fn new() -> (s: EventStore)
        ensures
            s.well_formed(),
            s.events@.len() == 0,
    {
        EventStore { events: Vec::new() }
    }
}

/// Whether one row passes every supplied predicate.
pub open spec fn event_matches(
    e: Event,
    source: Option<&str>,
    event_type: Option<&str>,
    action: Option<&str>,
    actor_name: Option<&str>,
    processed: Option<bool>,
    search: Option<&str>,
) -> bool {
    &&& (source matches Some(s) ==> e.source@ == s@)
    &&& (event_type matches Some(t) ==> e.event_type@ == t@)
    &&& (action matches Some(a) ==> e.action matches Some(ea) && ea@ == a@)
    &&& (actor_name matches Some(a) ==> e.actor_name matches Some(en) && en@ == a@)
    &&& (processed matches Some(p) ==> e.processed == p)
    &&& (match search {
        Some(s) => s@.len() > 0 ==> spec_contains_ci(payload_text(e.raw_event), s@),
        None => true,
    })
}

/// The rows passing every filter, newest (latest insertion) first.
pub open spec fn spec_filtered_desc(
    events: Seq<Event>,
    source: Option<&str>,
    event_type: Option<&str>,
    action: Option<&str>,
    actor_name: Option<&str>,
    processed: Option<bool>,
    search: Option<&str>,
) -> Seq<Event>
    decreases events.len(),
{
    if events.len() == 0 {
        Seq::empty()
    } else {
        let rest = spec_filtered_desc(
            events.drop_last(),
            source,
            event_type,
            action,
            actor_name,
            processed,
            search,
        );
        if event_matches(events.last(), source, event_type, action, actor_name, processed, search) {
            seq![events.last()] + rest
        } else {
            rest
        }
    }
}

/// The page of a result sequence selected by `offset` and `limit`.
pub open spec fn slice_page(s: Seq<Event>, offset: int, limit: int) -> Seq<Event>
    recommends
        offset >= 0,
        limit >= 0,
{
    if offset >= s.len() {
        Seq::empty()
    } else if offset + limit <= s.len() {
        s.subrange(offset, offset + limit)
    } else {
        s.subrange(offset, s.len() as int)
    }
}

fn event_matches_exec(
    e: &Event,
    source: Option<&str>,
    event_type: Option<&str>,
    action: Option<&str>,
    actor_name: Option<&str>,
    processed: Option<bool>,
    search: Option<&str>,
) -> (r: bool)
    ensures
        r == event_matches(*e, source, event_type, action, actor_name, processed, search),
{
    if let Some(s) = source {
        if !str_eq(e.source.as_str(), s) {
            return false;
        }
    }
    if let Some(t) = event_type {
        if !str_eq(e.event_type.as_str(), t) {
            return false;
        }
    }
    if let Some(a) = action {
        match &e.action {
            Some(ea) => if !str_eq(ea.as_str(), a) {
                return false;
            },
            None => {
                return false;
            },
        }
    }
    if let Some(a) = actor_name {
        match &e.actor_name {
            Some(en) => if !str_eq(en.as_str(), a) {
                return false;
            },
            None => {
                return false;
            },
        }
    }
    if let Some(p) = processed {
        if e.processed != p {
            return false;
        }
    }
    if let Some(s) = search {
        if !s.is_empty() {
            let text = render_payload(&e.raw_event);
            if !contains_ci(text.as_str(), s) {
                return false;
            }
        }
    }
    true
}

/// Collects the rows passing every filter, newest first.
fn collect_filtered_desc<'a>(
    events: &'a Vec<Event>,
    source: Option<&str>,
    event_type: Option<&str>,
    action: Option<&str>,
    actor_name: Option<&str>,
    processed: Option<bool>,
    search: Option<&str>,
) -> (r: Vec<&'a Event>)
    ensures
        deref_events(r@) == spec_filtered_desc(
            events@,
            source,
            event_type,
            action,
            actor_name,
            processed,
            search,
        ),
{
    let n = events.len();
    let mut full: Vec<&Event> = Vec::new();
    let mut idx: usize = n;
    assert(events@.take(n as int) =~= events@);
    while idx > 0
        invariant
            idx <= n,
            n == events@.len(),
            spec_filtered_desc(events@, source, event_type, action, actor_name, processed, search)
                =~= deref_events(full@) + spec_filtered_desc(
                events@.take(idx as int),
                source,
                event_type,
                action,
                actor_name,
                processed,
                search,
            ),
        decreases idx,
    {
        idx = idx - 1;
        let e = &events[idx];
        proof {
            assert(events@.take(idx + 1).drop_last() =~= events@.take(idx as int));
            assert(events@.take(idx + 1).last() == events@[idx as int]);
        }
        if event_matches_exec(e, source, event_type, action, actor_name, processed, search) {
            full.push(e);
            proof {
                assert(deref_events(full@) =~= deref_events(full@.drop_last()) + seq![
                    events@[idx as int],
                ]);
            }
        }
    }
    assert(events@.take(0) =~= Seq::<Event>::empty());
    assert(deref_events(full@) + Seq::<Event>::empty() =~= deref_events(full@));
    full
}

/// Copies the requested page out of a full result list.
fn page_slice<'a>(full: Vec<&'a Event>, limit: i64, offset: i64) -> (r: Vec<&'a Event>)
    requires
        limit >= 0,
        offset >= 0,
        full@.len() <= i64::MAX,
    ensures
        deref_events(r@) == slice_page(deref_events(full@), offset as int, limit as int),
{
    let len = full.len();
    let mut r: Vec<&Event> = Vec::new();
    if offset >= len as i64 {
        assert(deref_events(r@) =~= slice_page(deref_events(full@), offset as int, limit as int));
        return r;
    }
    let start: usize = offset as usize;
    let end: usize = if limit > len as i64 - offset {
        len
    } else {
        (offset + limit) as usize
    };
    for i in start..end
        invariant
            start <= end <= len,
            len == full@.len(),
            deref_events(r@) =~= deref_events(full@).subrange(start as int, i as int),
        decreases end - i,
    {
        r.push(full[i]);
        proof {
            assert(deref_events(r@) =~= deref_events(r@.drop_last()).push(*full@[i as int]));
            assert(deref_events(full@).subrange(start as int, i + 1) =~= deref_events(
                full@,
            ).subrange(start as int, i as int).push(deref_events(full@)[i as int]));
        }
    }
    assert(deref_events(r@) =~= slice_page(deref_events(full@), offset as int, limit as int));
    r
}

impl Event {
    /// Appends a new row; the store assigns the id and the received-at
    /// timestamp, and the row starts unprocessed. Returns the assigned id.
    pub fn create(store: &mut EventStore, data: CreateEvent, now: i64) -> (id: i64)
        requires
            old(store).well_formed(),
            old(store).events@.len() < i64::MAX,
        ensures
            final(store).well_formed(),
            id == old(store).events@.len() + 1,
            final(store).events@ == old(store).events@.push(
                (Event {
                    id: (old(store).events@.len() + 1) as i64,
                    source: data.source,
                    event_type: data.event_type,
                    action: data.action,
                    actor_name: data.actor_name,
                    actor_email: data.actor_email,
                    actor_id: data.actor_id,
                    raw_event: data.raw_event,
                    delivery_id: data.delivery_id,
                    signature: data.signature,
                    received_at: now,
                    processed: false,
                    processed_at: None,
                    repository_id: data.repository_id,
                }),
            ),
    {
        proof {
            if store.events@.len() > 0 {
                assert(store.events@[store.events@.len() - 1].id == store.events@.len() as int);
            }
        }
        let n = store.events.len();
        assert(n < i64::MAX);
        let id: i64 = n as i64 + 1;
        let e = Event {
            id,
            source: data.source,
            event_type: data.event_type,
            action: data.action,
            actor_name: data.actor_name,
            actor_email: data.actor_email,
            actor_id: data.actor_id,
            raw_event: data.raw_event,
            delivery_id: data.delivery_id,
            signature: data.signature,
            received_at: now,
            processed: false,
            processed_at: None,
            repository_id: data.repository_id,
        };
        store.events.push(e);
        id
    }

    /// Marks the row with the given id processed; idempotent, and a missing
    /// id changes nothing.
    pub fn mark_processed(store: &mut EventStore, id: i64, now: i64)
        requires
            old(store).well_formed(),
        ensures
            final(store).well_formed(),
            final(store).events@.len() == old(store).events@.len(),
            forall|i: int|
                0 <= i < old(store).events@.len() && old(store).events@[i].id != id
                    ==> final(store).events@[i] == old(store).events@[i],
            forall|i: int|
                0 <= i < old(store).events@.len() && old(store).events@[i].id == id
                    ==> final(store).events@[i] == (Event {
                    processed: true,
                    processed_at: Some(now),
                    ..old(store).events@[i]
                }),
    {
        proof {
            if store.events@.len() > 0 {
                assert(store.events@[store.events@.len() - 1].id == store.events@.len() as int);
            }
        }
        if id >= 1 && id <= store.events.len() as i64 {
            let idx: usize = (id - 1) as usize;
            store.events[idx].processed = true;
            store.events[idx].processed_at = Some(now);
        }
    }

    /// Looks a row up by id.
    pub fn find_by_id<'a>(store: &'a EventStore, id: i64) -> (r: Option<&'a Event>)
        requires
            store.well_formed(),
        ensures
            match r {
                Some(e) => 1 <= id <= store.events@.len() && *e == store.events@[id - 1],
                None => !(1 <= id <= store.events@.len()),
            },
    {
        proof {
            if store.events@.len() > 0 {
                assert(store.events@[store.events@.len() - 1].id == store.events@.len() as int);
            }
        }
        if id >= 1 && id <= store.events.len() as i64 {
            Some(&store.events[(id - 1) as usize])
        } else {
            None
        }
    }

    /// Filtered search, newest first, with limit and offset.
    pub fn search_and_filter<'a>(
        store: &'a EventStore,
        source: Option<&str>,
        event_type: Option<&str>,
        action: Option<&str>,
        actor_name: Option<&str>,
        processed: Option<bool>,
        search: Option<&str>,
        limit: i64,
        offset: i64,
    ) -> (r: Vec<&'a Event>)
        requires
            store.well_formed(),
            limit >= 0,
            offset >= 0,
        ensures
            deref_events(r@) == slice_page(
                spec_filtered_desc(
                    store.events@,
                    source,
                    event_type,
                    action,
                    actor_name,
                    processed,
                    search,
                ),
                offset as int,
                limit as int,
            ),
    {
        proof {
            if store.events@.len() > 0 {
                assert(store.events@[store.events@.len() - 1].id == store.events@.len() as int);
            }
            lemma_filtered_len_le(
                store.events@,
                source,
                event_type,
                action,
                actor_name,
                processed,
                search,
            );
        }
        let full = collect_filtered_desc(
            &store.events,
            source,
            event_type,
            action,
            actor_name,
            processed,
            search,
        );
        page_slice(full, limit, offset)
    }

    /// Number of rows the same filters select.
    pub fn count_filtered(
        store: &EventStore,
        source: Option<&str>,
        event_type: Option<&str>,
        action: Option<&str>,
        actor_name: Option<&str>,
        processed: Option<bool>,
        search: Option<&str>,
    ) -> (r: i64)
        requires
            store.well_formed(),
        ensures
            r == spec_filtered_desc(
                store.events@,
                source,
                event_type,
                action,
                actor_name,
                processed,
                search,
            ).len(),
    {
        proof {
            if store.events@.len() > 0 {
                assert(store.events@[store.events@.len() - 1].id == store.events@.len() as int);
            }
            lemma_filtered_len_le(
                store.events@,
                source,
                event_type,
                action,
                actor_name,
                processed,
                search,
            );
        }
        let full = collect_filtered_desc(
            &store.events,
            source,
            event_type,
            action,
            actor_name,
            processed,
            search,
        );
        full.len() as i64
    }

    /// All rows, newest first, with limit and offset.
    pub fn list_all<'a>(store: &'a EventStore, limit: i64, offset: i64) -> (r: Vec<&'a Event>)
        requires
            store.well_formed(),
            limit >= 0,
            offset >= 0,
        ensures
            deref_events(r@) == slice_page(
                spec_filtered_desc(store.events@, None, None, None, None, None, None),
                offset as int,
                limit as int,
            ),
    {
        Event::search_and_filter(store, None, None, None, None, None, None, limit, offset)
    }

    /// Rows of one event type, newest first, with limit and offset.
    pub fn list_by_type<'a>(
        store: &'a EventStore,
        event_type: &str,
        limit: i64,
        offset: i64,
    ) -> (r: Vec<&'a Event>)
        requires
            store.well_formed(),
            limit >= 0,
            offset >= 0,
        ensures
            deref_events(r@) == slice_page(
                spec_filtered_desc(store.events@, None, Some(event_type), None, None, None, None),
                offset as int,
                limit as int,
            ),
    {
        Event::search_and_filter(
            store,
            None,
            Some(event_type),
            None,
            None,
            None,
            None,
            limit,
            offset,
        )
    }

    /// Rows of one source, newest first, with limit and offset.
    pub fn list_by_source<'a>(
        store: &'a EventStore,
        source: &str,
        limit: i64,
        offset: i64,
    ) -> (r: Vec<&'a Event>)
        requires
            store.well_formed(),
            limit >= 0,
            offset >= 0,
        ensures
            deref_events(r@) == slice_page(
                spec_filtered_desc(store.events@, Some(source), None, None, None, None, None),
                offset as int,
                limit as int,
            ),
    {
        Event::search_and_filter(store, Some(source), None, None, None, None, None, limit, offset)
    }

    /// Total number of rows.
    pub fn count(store: &EventStore) -> (r: i64)
        requires
            store.well_formed(),
        ensures
            r == store.events@.len(),
    {
        proof {
            if store.events@.len() > 0 {
                assert(store.events@[store.events@.len() - 1].id == store.events@.len() as int);
            }
        }
        store.events.len() as i64
    }
}

/// A filter never selects more rows than the store holds.
pub proof fn lemma_filtered_len_le(
    events: Seq<Event>,
    source: Option<&str>,
    event_type: Option<&str>,
    action: Option<&str>,
    actor_name: Option<&str>,
    processed: Option<bool>,
    search: Option<&str>,
)
    ensures
        spec_filtered_desc(
            events,
            source,
            event_type,
            action,
            actor_name,
            processed,
            search,
        ).len() <= events.len(),
    decreases events.len(),
{
    if events.len() > 0 {
        lemma_filtered_len_le(
            events.drop_last(),
            source,
            event_type,
            action,
            actor_name,
            processed,
            search,
        );
    }
}

/// Counting and searching agree: with any limit at least the number of
/// matching rows and no offset, the page a search returns holds exactly the
/// rows the count reports.
pub proof fn lemma_count_matches_unbounded_search(
    events: Seq<Event>,
    source: Option<&str>,
    event_type: Option<&str>,
    action: Option<&str>,
    actor_name: Option<&str>,
    processed: Option<bool>,
    search: Option<&str>,
    limit: int,
)
    requires
        limit >= spec_filtered_desc(
            events,
            source,
            event_type,
            action,
            actor_name,
            processed,
            search,
        ).len(),
    ensures
        slice_page(
            spec_filtered_desc(events, source, event_type, action, actor_name, processed, search),
            0,
            limit,
        ) == spec_filtered_desc(
            events,
            source,
            event_type,
            action,
            actor_name,
            processed,
            search,
        ),
{
    let s = spec_filtered_desc(events, source, event_type, action, actor_name, processed, search);
    if s.len() > 0 {
        assert(slice_page(s, 0, limit) =~= s);
    } else {
        assert(slice_page(s, 0, limit) =~= s);
    }
}


impl Event {
    /// Every distinct event type observed, ascending by code point.
    pub fn get_event_types(store: &EventStore) -> (r: Vec<String>)
        ensures
            strictly_ascending(r@),
            forall|x: Seq<char>|
                #[trigger] seq_has_str(r@, x) <==> exists|k: int|
                    0 <= k < store.events@.len() && (#[trigger] store.events@[k]).event_type@
                        == x,
    {
        let n = store.events.len();
        let mut out: Vec<String> = Vec::new();
        for i in 0..n
            invariant
                n == store.events@.len(),
                strictly_ascending(out@),
                forall|x: Seq<char>|
                    #[trigger] seq_has_str(out@, x) <==> exists|k: int|
                        0 <= k < i && (#[trigger] store.events@[k]).event_type@ == x,
        {
            insert_sorted_unique(&mut out, store.events[i].event_type.clone());
        }
        out
    }

    /// Every distinct source observed, ascending by code point.
    pub fn get_sources(store: &EventStore) -> (r: Vec<String>)
        ensures
            strictly_ascending(r@),
            forall|x: Seq<char>|
                #[trigger] seq_has_str(r@, x) <==> exists|k: int|
                    0 <= k < store.events@.len() && (#[trigger] store.events@[k]).source@ == x,
    {
        let n = store.events.len();
        let mut out: Vec<String> = Vec::new();
        for i in 0..n
            invariant
                n == store.events@.len(),
                strictly_ascending(out@),
                forall|x: Seq<char>|
                    #[trigger] seq_has_str(out@, x) <==> exists|k: int|
                        0 <= k < i && (#[trigger] store.events@[k]).source@ == x,
        {
            insert_sorted_unique(&mut out, store.events[i].source.clone());
        }
        out
    }

    /// Every distinct action observed, rows without one skipped, ascending
    /// by code point.
    pub fn get_actions(store: &EventStore) -> (r: Vec<String>)
        ensures
            strictly_ascending(r@),
            forall|x: Seq<char>|
                #[trigger] seq_has_str(r@, x) <==> exists|k: int|
                    0 <= k < store.events@.len() && ((#[trigger] store.events@[k]).action matches Some(
                        a,
                    ) && a@ == x),
    {
        let n = store.events.len();
        let mut out: Vec<String> = Vec::new();
        for i in 0..n
            invariant
                n == store.events@.len(),
                strictly_ascending(out@),
                forall|x: Seq<char>|
                    #[trigger] seq_has_str(out@, x) <==> exists|k: int|
                        0 <= k < i && ((#[trigger] store.events@[k]).action matches Some(a) && a@
                            == x),
        {
            match &store.events[i].action {
                Some(a) => {
                    insert_sorted_unique(&mut out, a.clone());
                },
                None => {},
            }
        }
        out
    }

    /// Every distinct actor name observed, rows without one skipped,
    /// ascending by code point.
    pub fn get_actor_names(store: &EventStore) -> (r: Vec<String>)
        ensures
            strictly_ascending(r@),
            forall|x: Seq<char>|
                #[trigger] seq_has_str(r@, x) <==> exists|k: int|
                    0 <= k < store.events@.len() && ((#[trigger] store.events@[k]).actor_name matches Some(
                        a,
                    ) && a@ == x),
    {
        let n = store.events.len();
        let mut out: Vec<String> = Vec::new();
        for i in 0..n
            invariant
                n == store.events@.len(),
                strictly_ascending(out@),
                forall|x: Seq<char>|
                    #[trigger] seq_has_str(out@, x) <==> exists|k: int|
                        0 <= k < i && ((#[trigger] store.events@[k]).actor_name matches Some(a)
                            && a@ == x),
        {
            match &store.events[i].actor_name {
                Some(a) => {
                    insert_sorted_unique(&mut out, a.clone());
                },
                None => {},
            }
        }
        out
    }
}


/// The rows of one repository, newest (latest insertion) first.
pub open spec fn spec_repo_filtered_desc(events: Seq<Event>, repository_id: i64) -> Seq<Event>
    decreases events.len(),
{
    if events.len() == 0 {
        Seq::empty()
    } else {
        let rest = spec_repo_filtered_desc(events.drop_last(), repository_id);
        if events.last().repository_id == Some(repository_id) {
            seq![events.last()] + rest
        } else {
            rest
        }
    }
}

impl Event {
    /// Rows resolved to one repository, newest first, with limit and
    /// offset.
    pub fn list_by_repository<'a>(
        store: &'a EventStore,
        repository_id: i64,
        limit: i64,
        offset: i64,
    ) -> (r: Vec<&'a Event>)
        requires
            store.well_formed(),
            limit >= 0,
            offset >= 0,
        ensures
            deref_events(r@) == slice_page(
                spec_repo_filtered_desc(store.events@, repository_id),
                offset as int,
                limit as int,
            ),
    {
        proof {
            if store.events@.len() > 0 {
                assert(store.events@[store.events@.len() - 1].id == store.events@.len() as int);
            }
            lemma_repo_filtered_len_le(store.events@, repository_id);
        }
        let events = &store.events;
        let n = events.len();
        let mut full: Vec<&Event> = Vec::new();
        let mut idx: usize = n;
        assert(events@.take(n as int) =~= events@);
        while idx > 0
            invariant
                idx <= n,
                n == events@.len(),
                spec_repo_filtered_desc(events@, repository_id) =~= deref_events(full@)
                    + spec_repo_filtered_desc(events@.take(idx as int), repository_id),
            decreases idx,
        {
            idx = idx - 1;
            let e = &events[idx];
            proof {
                assert(events@.take(idx + 1).drop_last() =~= events@.take(idx as int));
                assert(events@.take(idx + 1).last() == events@[idx as int]);
            }
            let matched = match e.repository_id {
                Some(rid) => rid == repository_id,
                None => false,
            };
            if matched {
                full.push(e);
                proof {
                    assert(deref_events(full@) =~= deref_events(full@.drop_last()) + seq![
                        events@[idx as int],
                    ]);
                }
            }
        }
        assert(events@.take(0) =~= Seq::<Event>::empty());
        assert(deref_events(full@) + Seq::<Event>::empty() =~= deref_events(full@));
        page_slice(full, limit, offset)
    }
}

/// The repository filter never selects more rows than the store holds.
pub proof fn lemma_repo_filtered_len_le(events: Seq<Event>, repository_id: i64)
    ensures
        spec_repo_filtered_desc(events, repository_id).len() <= events.len(),
    decreases events.len(),
{
    if events.len() > 0 {
        lemma_repo_filtered_len_le(events.drop_last(), repository_id);
    }
}


/// The dashboard's filter form: the requested page and the optional
/// conjunctive predicates of a filtered event search.
pub struct EventFilters {
    pub page: Option<i64>,
    pub source: Option<String>,
    pub event_type: Option<String>,
    pub action: Option<String>,
    pub actor_name: Option<String>,
    pub processed: Option<bool>,
    pub search: Option<String>,
}

impl EventFilters {
    /// The page to show: the requested one, at least the first.
    pub fn page_number(&self) -> (r: i64)
        ensures
            r == (match self.page {
                Some(p) => if p >= 1 {
                    p
                } else {
                    1i64
                },
                None => 1i64,
            }),
    {
        match self.page {
            Some(p) => if p >= 1 {
                p
            } else {
                1
            },
            None => 1,
        }
    }

    /// The source predicate, borrowed for the search call.
    pub fn source_filter<'a>(&'a self) -> (r: Option<&'a str>)
        ensures
            match r {
                Some(v) => self.source matches Some(s) && s@ == v@,
                None => self.source is None,
            },
    {
        match &self.source {
            Some(s) => Some(s.as_str()),
            None => None,
        }
    }

    /// The event-type predicate, borrowed for the search call.
    pub fn event_type_filter<'a>(&'a self) -> (r: Option<&'a str>)
        ensures
            match r {
                Some(v) => self.event_type matches Some(s) && s@ == v@,
                None => self.event_type is None,
            },
    {
        match &self.event_type {
            Some(s) => Some(s.as_str()),
            None => None,
        }
    }

    /// The action predicate, borrowed for the search call.
    pub fn action_filter<'a>(&'a self) -> (r: Option<&'a str>)
        ensures
            match r {
                Some(v) => self.action matches Some(s) && s@ == v@,
                None => self.action is None,
            },
    {
        match &self.action {
            Some(s) => Some(s.as_str()),
            None => None,
        }
    }

    /// The actor-name predicate, borrowed for the search call.
    pub fn actor_name_filter<'a>(&'a self) -> (r: Option<&'a str>)
        ensures
            match r {
                Some(v) => self.actor_name matches Some(s) && s@ == v@,
                None => self.actor_name is None,
            },
    {
        match &self.actor_name {
            Some(s) => Some(s.as_str()),
            None => None,
        }
    }

    /// The free-text predicate, borrowed for the search call.
    pub fn search_filter<'a>(&'a self) -> (r: Option<&'a str>)
        ensures
            match r {
                Some(v) => self.search matches Some(s) && s@ == v@,
                None => self.search is None,
            },
    {
        match &self.search {
            Some(s) => Some(s.as_str()),
            None => None,
        }
    }
}

} // verus!
