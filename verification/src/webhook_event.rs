//! The legacy GitHub-only webhook event store, kept for backward
//! compatibility beside the canonical event store.
//!
//! Rows live in insertion order with ids assigned monotonically from 1;
//! listings return rows newest (latest insertion) first. Filters are
//! conjunctive; a non-empty free-text term must occur case-insensitively in
//! the payload's canonical text.

use vstd::prelude::*;

use crate::json::JsonValue;
use crate::strutil::spec_contains_ci;
use crate::strutil::str_eq;
use crate::strutil::seq_has_str;
use crate::strutil::strictly_ascending;
use crate::strutil::insert_sorted_unique;
use crate::strutil::contains_ci;
use crate::text::payload_text;
use crate::text::render_payload;

verus! {

/// A legacy GitHub webhook delivery, as persisted.
pub struct WebhookEvent {
    pub id: i64,
    pub repository_id: Option<i64>,
    pub event_type: String,
    pub event_action: Option<String>,
    pub delivery_id: String,
    pub payload: JsonValue,
    pub signature: String,
    pub received_at: i64,
    pub processed: bool,
    pub processed_at: Option<i64>,
}

/// The caller-supplied part of a new legacy row.
pub struct CreateWebhookEvent {
    pub repository_id: Option<i64>,
    pub event_type: String,
    pub event_action: Option<String>,
    pub delivery_id: String,
    pub payload: JsonValue,
    pub signature: String,
}

/// In-memory legacy event store; rows in insertion order.
pub struct WebhookEventStore {
    pub events: Vec<WebhookEvent>,
}

/// The sequence of `&WebhookEvent` results, as values.
pub open spec fn deref_webhook_events(s: Seq<&WebhookEvent>) -> Seq<WebhookEvent> {
    s.map_values(|e: &WebhookEvent| *e)
}

impl WebhookEventStore {
    /// Ids are assigned in insertion order starting from 1.
    pub open spec fn well_formed(self) -> bool {
        forall|i: int| 0 <= i < self.events@.len() ==> (#[trigger] self.events@[i]).id == i + 1
    }

    pub fn new() -> (s: WebhookEventStore)
        ensures
            s.well_formed(),
            s.events@.len() == 0,
    {
        WebhookEventStore { events: Vec::new() }
    }
}

/// Whether one legacy row passes every supplied predicate.
pub open spec fn webhook_event_matches(
    e: WebhookEvent,
    event_type: Option<&str>,
    repository_id: Option<i64>,
    processed: Option<bool>,
    search: Option<&str>,
) -> bool {
    &&& (event_type matches Some(t) ==> e.event_type@ == t@)
    &&& (repository_id matches Some(rid) ==> e.repository_id == Some(rid))
    &&& (processed matches Some(p) ==> e.processed == p)
    &&& (match search {
        Some(s) => s@.len() > 0 ==> spec_contains_ci(payload_text(e.payload), s@),
        None => true,
    })
}

/// The legacy rows passing every filter, newest first.
pub open spec fn spec_webhook_filtered_desc(
    events: Seq<WebhookEvent>,
    event_type: Option<&str>,
    repository_id: Option<i64>,
    processed: Option<bool>,
    search: Option<&str>,
) -> Seq<WebhookEvent>
    decreases events.len(),
{
    if events.len() == 0 {
        Seq::empty()
    } else {
        let rest = spec_webhook_filtered_desc(
            events.drop_last(),
            event_type,
            repository_id,
            processed,
            search,
        );
        if webhook_event_matches(events.last(), event_type, repository_id, processed, search) {
            seq![events.last()] + rest
        } else {
            rest
        }
    }
}

/// The page of a legacy result sequence selected by `offset` and `limit`.
pub open spec fn webhook_slice_page(s: Seq<WebhookEvent>, offset: int, limit: int) -> Seq<
    WebhookEvent,
>
    recommends
        offset >= 0,
        limit >= 0,
{
    if offset >= s.len() {
        Seq::empty()
    } else if offset + limit <= s.len() {
        s.subrange(offset, offset + limit)
    } else {
        s.subrange(offset, s.len() as int)
    }
}

fn webhook_event_matches_exec(
    e: &WebhookEvent,
    event_type: Option<&str>,
    repository_id: Option<i64>,
    processed: Option<bool>,
    search: Option<&str>,
) -> (r: bool)
    ensures
        r == webhook_event_matches(*e, event_type, repository_id, processed, search),
{
    if let Some(t) = event_type {
        if !str_eq(e.event_type.as_str(), t) {
            return false;
        }
    }
    if let Some(rid) = repository_id {
        match e.repository_id {
            Some(er) => if er != rid {
                return false;
            },
            None => {
                return false;
            },
        }
    }
    if let Some(p) = processed {
        if e.processed != p {
            return false;
        }
    }
    if let Some(s) = search {
        if !s.is_empty() {
            let text = render_payload(&e.payload);
            if !contains_ci(text.as_str(), s) {
                return false;
            }
        }
    }
    true
}

fn collect_webhook_filtered_desc<'a>(
    events: &'a Vec<WebhookEvent>,
    event_type: Option<&str>,
    repository_id: Option<i64>,
    processed: Option<bool>,
    search: Option<&str>,
) -> (r: Vec<&'a WebhookEvent>)
    ensures
        deref_webhook_events(r@) == spec_webhook_filtered_desc(
            events@,
            event_type,
            repository_id,
            processed,
            search,
        ),
{
    let n = events.len();
    let mut full: Vec<&WebhookEvent> = Vec::new();
    let mut idx: usize = n;
    assert(events@.take(n as int) =~= events@);
    while idx > 0
        invariant
            idx <= n,
            n == events@.len(),
            spec_webhook_filtered_desc(events@, event_type, repository_id, processed, search)
                =~= deref_webhook_events(full@) + spec_webhook_filtered_desc(
                events@.take(idx as int),
                event_type,
                repository_id,
                processed,
                search,
            ),
        decreases idx,
    {
        idx = idx - 1;
        let e = &events[idx];
        proof {
            assert(events@.take(idx + 1).drop_last() =~= events@.take(idx as int));
            assert(events@.take(idx + 1).last() == events@[idx as int]);
        }
        if webhook_event_matches_exec(e, event_type, repository_id, processed, search) {
            full.push(e);
            proof {
                assert(deref_webhook_events(full@) =~= deref_webhook_events(full@.drop_last())
                    + seq![events@[idx as int]]);
            }
        }
    }
    assert(events@.take(0) =~= Seq::<WebhookEvent>::empty());
    assert(deref_webhook_events(full@) + Seq::<WebhookEvent>::empty() =~= deref_webhook_events(
        full@,
    ));
    full
}

fn webhook_page_slice<'a>(full: Vec<&'a WebhookEvent>, limit: i64, offset: i64) -> (r: Vec<
    &'a WebhookEvent,
>)
    requires
        limit >= 0,
        offset >= 0,
        full@.len() <= i64::MAX,
    ensures
        deref_webhook_events(r@) == webhook_slice_page(
            deref_webhook_events(full@),
            offset as int,
            limit as int,
        ),
{
    let len = full.len();
    let mut r: Vec<&WebhookEvent> = Vec::new();
    if offset >= len as i64 {
        assert(deref_webhook_events(r@) =~= webhook_slice_page(
            deref_webhook_events(full@),
            offset as int,
            limit as int,
        ));
        return r;
    }
    let start: usize = offset as usize;
    let end: usize = if limit > len as i64 - offset {
        len
    } else {
        (offset + limit) as usize
    };
    for i in start..end
        invariant
            start <= end <= len,
            len == full@.len(),
            deref_webhook_events(r@) =~= deref_webhook_events(full@).subrange(
                start as int,
                i as int,
            ),
        decreases end - i,
    {
        r.push(full[i]);
        proof {
            assert(deref_webhook_events(r@) =~= deref_webhook_events(r@.drop_last()).push(
                *full@[i as int],
            ));
            assert(deref_webhook_events(full@).subrange(start as int, i + 1)
                =~= deref_webhook_events(full@).subrange(start as int, i as int).push(
                deref_webhook_events(full@)[i as int],
            ));
        }
    }
    assert(deref_webhook_events(r@) =~= webhook_slice_page(
        deref_webhook_events(full@),
        offset as int,
        limit as int,
    ));
    r
}

impl WebhookEvent {
    /// Appends a new legacy row; the store assigns the id and the
    /// received-at timestamp, and the row starts unprocessed. Returns the
    /// assigned id.
    pub fn create(store: &mut WebhookEventStore, data: CreateWebhookEvent, now: i64) -> (id: i64)
        requires
            old(store).well_formed(),
            old(store).events@.len() < i64::MAX,
        ensures
            final(store).well_formed(),
            id == old(store).events@.len() + 1,
            final(store).events@ == old(store).events@.push(
                (WebhookEvent {
                    id: (old(store).events@.len() + 1) as i64,
                    repository_id: data.repository_id,
                    event_type: data.event_type,
                    event_action: data.event_action,
                    delivery_id: data.delivery_id,
                    payload: data.payload,
                    signature: data.signature,
                    received_at: now,
                    processed: false,
                    processed_at: None,
                }),
            ),
    {
        proof {
            if store.events@.len() > 0 {
                assert(store.events@[store.events@.len() - 1].id == store.events@.len() as int);
            }
        }
        let n = store.events.len();
        let id: i64 = n as i64 + 1;
        let e = WebhookEvent {
            id,
            repository_id: data.repository_id,
            event_type: data.event_type,
            event_action: data.event_action,
            delivery_id: data.delivery_id,
            payload: data.payload,
            signature: data.signature,
            received_at: now,
            processed: false,
            processed_at: None,
        };
        store.events.push(e);
        id
    }

    /// Marks the legacy row with the given id processed; idempotent, and a
    /// missing id changes nothing.
    pub fn mark_processed(store: &mut WebhookEventStore, id: i64, now: i64)
        requires
            old(store).well_formed(),
        ensures
            final(store).well_formed(),
            final(store).events@.len() == old(store).events@.len(),
            forall|i: int|
                0 <= i < old(store).events@.len() && old(store).events@[i].id != id
                    ==> final(store).events@[i] == old(store).events@[i],
            forall|i: int|
                0 <= i < old(store).events@.len() && old(store).events@[i].id == id
                    ==> final(store).events@[i] == (WebhookEvent {
                    processed: true,
                    processed_at: Some(now),
                    ..old(store).events@[i]
                }),
    {
        proof {
            if store.events@.len() > 0 {
                assert(store.events@[store.events@.len() - 1].id == store.events@.len() as int);
            }
        }
        if id >= 1 && id <= store.events.len() as i64 {
            let idx: usize = (id - 1) as usize;
            store.events[idx].processed = true;
            store.events[idx].processed_at = Some(now);
        }
    }

    /// Looks a legacy row up by id.
    pub fn find_by_id<'a>(store: &'a WebhookEventStore, id: i64) -> (r: Option<&'a WebhookEvent>)
        requires
            store.well_formed(),
        ensures
            match r {
                Some(e) => 1 <= id <= store.events@.len() && *e == store.events@[id - 1],
                None => !(1 <= id <= store.events@.len()),
            },
    {
        proof {
            if store.events@.len() > 0 {
                assert(store.events@[store.events@.len() - 1].id == store.events@.len() as int);
            }
        }
        if id >= 1 && id <= store.events.len() as i64 {
            Some(&store.events[(id - 1) as usize])
        } else {
            None
        }
    }

    /// Filtered search over the legacy rows, newest first, with limit and
    /// offset.
    pub fn search_and_filter<'a>(
        store: &'a WebhookEventStore,
        event_type: Option<&str>,
        repository_id: Option<i64>,
        processed: Option<bool>,
        search: Option<&str>,
        limit: i64,
        offset: i64,
    ) -> (r: Vec<&'a WebhookEvent>)
        requires
            store.well_formed(),
            limit >= 0,
            offset >= 0,
        ensures
            deref_webhook_events(r@) == webhook_slice_page(
                spec_webhook_filtered_desc(
                    store.events@,
                    event_type,
                    repository_id,
                    processed,
                    search,
                ),
                offset as int,
                limit as int,
            ),
    {
        proof {
            if store.events@.len() > 0 {
                assert(store.events@[store.events@.len() - 1].id == store.events@.len() as int);
            }
            lemma_webhook_filtered_len_le(
                store.events@,
                event_type,
                repository_id,
                processed,
                search,
            );
        }
        let full = collect_webhook_filtered_desc(
            &store.events,
            event_type,
            repository_id,
            processed,
            search,
        );
        webhook_page_slice(full, limit, offset)
    }

    /// Number of legacy rows the same filters select.
    pub fn count_filtered(
        store: &WebhookEventStore,
        event_type: Option<&str>,
        repository_id: Option<i64>,
        processed: Option<bool>,
        search: Option<&str>,
    ) -> (r: i64)
        requires
            store.well_formed(),
        ensures
            r == spec_webhook_filtered_desc(
                store.events@,
                event_type,
                repository_id,
                processed,
                search,
            ).len(),
    {
        proof {
            if store.events@.len() > 0 {
                assert(store.events@[store.events@.len() - 1].id == store.events@.len() as int);
            }
            lemma_webhook_filtered_len_le(
                store.events@,
                event_type,
                repository_id,
                processed,
                search,
            );
        }
        let full = collect_webhook_filtered_desc(
            &store.events,
            event_type,
            repository_id,
            processed,
            search,
        );
        full.len() as i64
    }

    /// All legacy rows, newest first, with limit and offset.
    pub fn list_all<'a>(store: &'a WebhookEventStore, limit: i64, offset: i64) -> (r: Vec<
        &'a WebhookEvent,
    >)
        requires
            store.well_formed(),
            limit >= 0,
            offset >= 0,
        ensures
            deref_webhook_events(r@) == webhook_slice_page(
                spec_webhook_filtered_desc(store.events@, None, None, None, None),
                offset as int,
                limit as int,
            ),
    {
        WebhookEvent::search_and_filter(store, None, None, None, None, limit, offset)
    }

    /// Legacy rows of one repository, newest first, with limit and offset.
    pub fn list_by_repository<'a>(
        store: &'a WebhookEventStore,
        repository_id: i64,
        limit: i64,
        offset: i64,
    ) -> (r: Vec<&'a WebhookEvent>)
        requires
            store.well_formed(),
            limit >= 0,
            offset >= 0,
        ensures
            deref_webhook_events(r@) == webhook_slice_page(
                spec_webhook_filtered_desc(store.events@, None, Some(repository_id), None, None),
                offset as int,
                limit as int,
            ),
    {
        WebhookEvent::search_and_filter(store, None, Some(repository_id), None, None, limit, offset)
    }

    /// Legacy rows of one event type, newest first, with limit and offset.
    pub fn list_by_type<'a>(
        store: &'a WebhookEventStore,
        event_type: &str,
        limit: i64,
        offset: i64,
    ) -> (r: Vec<&'a WebhookEvent>)
        requires
            store.well_formed(),
            limit >= 0,
            offset >= 0,
        ensures
            deref_webhook_events(r@) == webhook_slice_page(
                spec_webhook_filtered_desc(store.events@, Some(event_type), None, None, None),
                offset as int,
                limit as int,
            ),
    {
        WebhookEvent::search_and_filter(store, Some(event_type), None, None, None, limit, offset)
    }

    /// Total number of legacy rows.
    pub fn count(store: &WebhookEventStore) -> (r: i64)
        requires
            store.well_formed(),
        ensures
            r == store.events@.len(),
    {
        proof {
            if store.events@.len() > 0 {
                assert(store.events@[store.events@.len() - 1].id == store.events@.len() as int);
            }
        }
        store.events.len() as i64
    }
}

/// A filter never selects more legacy rows than the store holds.
pub proof fn lemma_webhook_filtered_len_le(
    events: Seq<WebhookEvent>,
    event_type: Option<&str>,
    repository_id: Option<i64>,
    processed: Option<bool>,
    search: Option<&str>,
)
    ensures
        spec_webhook_filtered_desc(events, event_type, repository_id, processed, search).len()
            <= events.len(),
    decreases events.len(),
{
    if events.len() > 0 {
        lemma_webhook_filtered_len_le(
            events.drop_last(),
            event_type,
            repository_id,
            processed,
            search,
        );
    }
}


impl WebhookEvent {
    /// Every distinct legacy event type observed, ascending by code point.
    pub fn get_event_types(store: &WebhookEventStore) -> (r: Vec<String>)
        ensures
            strictly_ascending(r@),
            forall|x: Seq<char>|
                #[trigger] seq_has_str(r@, x) <==> exists|k: int|
                    0 <= k < store.events@.len() && (#[trigger] store.events@[k]).event_type@
                        == x,
    {
        let n = store.events.len();
        let mut out: Vec<String> = Vec::new();
        for i in 0..n
            invariant
                n == store.events@.len(),
                strictly_ascending(out@),
                forall|x: Seq<char>|
                    #[trigger] seq_has_str(out@, x) <==> exists|k: int|
                        0 <= k < i && (#[trigger] store.events@[k]).event_type@ == x,
        {
            insert_sorted_unique(&mut out, store.events[i].event_type.clone());
        }
        out
    }
}

} // verus!
