use crossbow::event::{CreateEvent, Event, EventFilters, EventStore};
use crossbow::json::JsonValue;

fn obj(members: Vec<(&str, JsonValue)>) -> JsonValue {
    JsonValue::Obj(members.into_iter().map(|(k, v)| (k.to_string(), v)).collect())
}

fn sample(source: &str, event_type: &str, action: Option<&str>, actor: Option<&str>, note: &str) -> CreateEvent {
    CreateEvent {
        source: source.to_string(),
        event_type: event_type.to_string(),
        action: action.map(|s| s.to_string()),
        actor_name: actor.map(|s| s.to_string()),
        actor_email: None,
        actor_id: None,
        raw_event: obj(vec![("note", JsonValue::Str(note.to_string()))]),
        delivery_id: "00000000-0000-0000-0000-000000000000".to_string(),
        signature: None,
        repository_id: None,
    }
}

fn filled_store() -> EventStore {
    let mut store = EventStore::new();
    Event::create(&mut store, sample("github", "push", None, Some("alice"), "First Push"), 10);
    Event::create(&mut store, sample("gitlab", "push", Some("opened"), Some("bob"), "second"), 20);
    Event::create(&mut store, sample("github", "issues", Some("opened"), None, "third"), 30);
    Event::create(&mut store, sample("auth0", "login", None, Some("alice"), "fourth"), 40);
    store
}

#[test]
fn create_assigns_monotonic_ids() {
    let mut store = EventStore::new();
    let a = Event::create(&mut store, sample("github", "push", None, None, "x"), 1);
    let b = Event::create(&mut store, sample("github", "push", None, None, "y"), 2);
    assert_eq!(a, 1);
    assert_eq!(b, 2);
    assert_eq!(Event::count(&store), 2);
}

#[test]
fn find_by_id_returns_the_row() {
    let store = filled_store();
    let e = Event::find_by_id(&store, 3).unwrap();
    assert_eq!(e.event_type, "issues");
    assert_eq!(e.received_at, 30);
    assert!(Event::find_by_id(&store, 5).is_none());
    assert!(Event::find_by_id(&store, 0).is_none());
}

#[test]
fn mark_processed_is_idempotent() {
    let mut store = filled_store();
    Event::mark_processed(&mut store, 2, 100);
    assert!(store.events[1].processed);
    assert_eq!(store.events[1].processed_at, Some(100));
    Event::mark_processed(&mut store, 2, 200);
    assert!(store.events[1].processed);
    assert_eq!(store.events[1].processed_at, Some(200));
    // a missing id changes nothing
    Event::mark_processed(&mut store, 99, 300);
    assert!(!store.events[0].processed);
}

#[test]
fn search_returns_newest_first() {
    let store = filled_store();
    let all = Event::list_all(&store, i64::MAX, 0);
    let ids: Vec<i64> = all.iter().map(|e| e.id).collect();
    assert_eq!(ids, vec![4, 3, 2, 1]);
}

#[test]
fn filters_are_conjunctive() {
    let store = filled_store();
    let r = Event::search_and_filter(
        &store,
        Some("github"),
        Some("push"),
        None,
        None,
        None,
        None,
        i64::MAX,
        0,
    );
    assert_eq!(r.len(), 1);
    assert_eq!(r[0].id, 1);

    // an action filter excludes rows without an action
    let r = Event::search_and_filter(
        &store,
        None,
        None,
        Some("opened"),
        None,
        None,
        None,
        i64::MAX,
        0,
    );
    let ids: Vec<i64> = r.iter().map(|e| e.id).collect();
    assert_eq!(ids, vec![3, 2]);
}

#[test]
fn free_text_search_is_case_insensitive() {
    let store = filled_store();
    let r = Event::search_and_filter(
        &store,
        None,
        None,
        None,
        None,
        None,
        Some("first push"),
        i64::MAX,
        0,
    );
    assert_eq!(r.len(), 1);
    assert_eq!(r[0].id, 1);

    // empty search is no filter
    let r = Event::search_and_filter(&store, None, None, None, None, None, Some(""), i64::MAX, 0);
    assert_eq!(r.len(), 4);
}

#[test]
fn count_filtered_equals_unbounded_search_len() {
    let store = filled_store();
    let combos: Vec<(Option<&str>, Option<&str>, Option<&str>, Option<&str>, Option<bool>, Option<&str>)> = vec![
        (None, None, None, None, None, None),
        (Some("github"), None, None, None, None, None),
        (None, Some("push"), None, None, None, None),
        (None, None, Some("opened"), None, None, None),
        (None, None, None, Some("alice"), None, None),
        (None, None, None, None, Some(false), None),
        (Some("github"), Some("push"), None, Some("alice"), Some(false), Some("push")),
        (None, None, None, None, None, Some("THIRD")),
    ];
    for (source, event_type, action, actor, processed, search) in combos {
        let n = Event::count_filtered(&store, source, event_type, action, actor, processed, search);
        let found = Event::search_and_filter(
            &store, source, event_type, action, actor, processed, search, i64::MAX, 0,
        );
        assert_eq!(n as usize, found.len());
    }
}

#[test]
fn limit_and_offset_page_through_results() {
    let store = filled_store();
    let page1 = Event::list_all(&store, 2, 0);
    let page2 = Event::list_all(&store, 2, 2);
    let page3 = Event::list_all(&store, 2, 4);
    assert_eq!(page1.iter().map(|e| e.id).collect::<Vec<_>>(), vec![4, 3]);
    assert_eq!(page2.iter().map(|e| e.id).collect::<Vec<_>>(), vec![2, 1]);
    assert!(page3.is_empty());
}

#[test]
fn list_by_type_and_source() {
    let store = filled_store();
    let pushes = Event::list_by_type(&store, "push", i64::MAX, 0);
    assert_eq!(pushes.iter().map(|e| e.id).collect::<Vec<_>>(), vec![2, 1]);
    let gh = Event::list_by_source(&store, "github", i64::MAX, 0);
    assert_eq!(gh.iter().map(|e| e.id).collect::<Vec<_>>(), vec![3, 1]);
}

#[test]
fn list_by_repository_filters_on_back_reference() {
    let mut store = EventStore::new();
    let mut with_repo = sample("github", "push", None, None, "x");
    with_repo.repository_id = Some(7);
    Event::create(&mut store, with_repo, 1);
    Event::create(&mut store, sample("github", "push", None, None, "y"), 2);
    let mut with_repo2 = sample("github", "issues", None, None, "z");
    with_repo2.repository_id = Some(7);
    Event::create(&mut store, with_repo2, 3);

    let r = Event::list_by_repository(&store, 7, i64::MAX, 0);
    assert_eq!(r.iter().map(|e| e.id).collect::<Vec<_>>(), vec![3, 1]);
    assert!(Event::list_by_repository(&store, 8, i64::MAX, 0).is_empty());
}

#[test]
fn distinct_accessors_are_ascending() {
    let store = filled_store();
    let types: Vec<String> = Event::get_event_types(&store);
    assert_eq!(types, vec!["issues".to_string(), "login".to_string(), "push".to_string()]);
    let sources = Event::get_sources(&store);
    assert_eq!(sources, vec!["auth0".to_string(), "github".to_string(), "gitlab".to_string()]);
    let actions = Event::get_actions(&store);
    assert_eq!(actions, vec!["opened".to_string()]);
    let actors = Event::get_actor_names(&store);
    assert_eq!(actors, vec!["alice".to_string(), "bob".to_string()]);
}

#[test]
fn event_filters_feed_the_search() {
    let store = filled_store();
    let f = EventFilters {
        page: Some(-3),
        source: Some("github".to_string()),
        event_type: None,
        action: None,
        actor_name: None,
        processed: Some(false),
        search: None,
    };
    assert_eq!(f.page_number(), 1);
    let r = Event::search_and_filter(
        &store,
        f.source_filter(),
        f.event_type_filter(),
        f.action_filter(),
        f.actor_name_filter(),
        f.processed,
        f.search_filter(),
        300,
        (f.page_number() - 1) * 300,
    );
    assert_eq!(r.iter().map(|e| e.id).collect::<Vec<_>>(), vec![3, 1]);
}
