use crossbow::adapter::Headers;
use crossbow::domain::{CreateCommit, Commit, CreateRepository, DomainStore, Issue, PullRequest, Repository};
use crossbow::event::EventStore;
use crossbow::ingest::{handle_generic_webhook, GenericOutcome};
use crossbow::json::JsonValue;
use crossbow::project::{extract_repository, process_event_by_source};
use crossbow::webhook_event::{CreateWebhookEvent, WebhookEvent, WebhookEventStore};
use hmac::Mac;

const SECRET: &str = "test_secret";

fn obj(members: Vec<(&str, JsonValue)>) -> JsonValue {
    JsonValue::Obj(members.into_iter().map(|(k, v)| (k.to_string(), v)).collect())
}

fn s(v: &str) -> JsonValue {
    JsonValue::Str(v.to_string())
}

fn sign(body: &[u8]) -> String {
    let mut mac = hmac::Hmac::<sha2::Sha256>::new_from_slice(SECRET.as_bytes()).unwrap();
    mac.update(body);
    format!("sha256={}", hex::encode(mac.finalize().into_bytes()))
}

fn deliver(events: &mut EventStore, event: &str, body: &[u8], now: i64) -> i64 {
    let mut h = Headers::new();
    h.push("X-GitHub-Event".to_string(), event.to_string());
    h.push("X-Hub-Signature-256".to_string(), sign(body));
    match handle_generic_webhook(events, "github", &h, body, SECRET, now) {
        GenericOutcome::Received { event_id, .. } => event_id,
        _ => panic!("delivery rejected"),
    }
}

#[test]
fn extract_repository_reports_first_missing_field() {
    let p = obj(vec![]);
    assert_eq!(extract_repository(&p).unwrap_err().message(), "Missing repository id");

    let p = obj(vec![("repository", obj(vec![("id", JsonValue::Int(1))]))]);
    assert_eq!(extract_repository(&p).unwrap_err().message(), "Missing repository name");

    let p = obj(vec![(
        "repository",
        obj(vec![("id", JsonValue::Int(1)), ("name", s("n"))]),
    )]);
    assert_eq!(extract_repository(&p).unwrap_err().message(), "Missing repository full_name");

    let p = obj(vec![(
        "repository",
        obj(vec![("id", JsonValue::Int(1)), ("name", s("n")), ("full_name", s("o/n"))]),
    )]);
    assert_eq!(extract_repository(&p).unwrap_err().message(), "Missing repository owner");

    let p = obj(vec![(
        "repository",
        obj(vec![
            ("id", JsonValue::Int(1)),
            ("name", s("n")),
            ("full_name", s("o/n")),
            ("owner", obj(vec![("login", s("o"))])),
        ]),
    )]);
    assert_eq!(extract_repository(&p).unwrap_err().message(), "Missing repository url");
}

#[test]
fn extract_repository_defaults() {
    let p = obj(vec![(
        "repository",
        obj(vec![
            ("id", JsonValue::Int(9)),
            ("name", s("n")),
            ("full_name", s("o/n")),
            ("owner", obj(vec![("login", s("o"))])),
            ("html_url", s("https://example.com/o/n")),
        ]),
    )]);
    let cr = extract_repository(&p).unwrap();
    assert_eq!(cr.github_id, 9);
    assert_eq!(cr.description, None);
    assert!(!cr.is_private);
}

#[test]
fn pull_request_event_upserts_one_row() {
    let mut events = EventStore::new();
    let mut domain = DomainStore::new();
    let body = br#"{
      "repository": {
        "id": 42, "name": "crossbow", "full_name": "acme/crossbow",
        "owner": {"login": "acme"}, "html_url": "https://example.com/r",
        "private": true, "description": "mirror"
      },
      "pull_request": {
        "id": 900, "number": 5, "title": "Add parser", "state": "open",
        "user": {"login": "octo"},
        "base": {"ref": "main"}, "head": {"ref": "feature"},
        "html_url": "https://example.com/pr/5",
        "created_at": "2024-02-01T00:00:00Z",
        "closed_at": null, "merged_at": null
      },
      "action": "opened"
    }"#;
    let id = deliver(&mut events, "pull_request", body, 10);
    process_event_by_source(&mut events, &mut domain, id, "github", 20).unwrap();

    assert_eq!(domain.repositories.len(), 1);
    assert!(domain.repositories[0].is_private);
    assert_eq!(domain.repositories[0].description.as_deref(), Some("mirror"));
    assert_eq!(domain.pull_requests.len(), 1);
    let pr = &domain.pull_requests[0];
    assert_eq!(pr.github_id, 900);
    assert_eq!(pr.number, 5);
    assert_eq!(pr.title, "Add parser");
    assert_eq!(pr.state, "open");
    assert_eq!(pr.base_branch, "main");
    assert_eq!(pr.head_branch, "feature");
    assert_eq!(pr.closed_at, None);
    assert_eq!(pr.merged_at, None);

    // a second sighting with a new state refreshes the same row
    let closed = String::from_utf8(body.to_vec()).unwrap().replace("\"open\"", "\"closed\"");
    let id2 = deliver(&mut events, "pull_request", closed.as_bytes(), 30);
    process_event_by_source(&mut events, &mut domain, id2, "github", 40).unwrap();
    assert_eq!(domain.pull_requests.len(), 1);
    assert_eq!(domain.pull_requests[0].state, "closed");
    assert_eq!(domain.pull_requests[0].webhook_event_id, id);
    assert_eq!(PullRequest::count_by_state(&domain, "closed"), 1);
    assert_eq!(PullRequest::count_by_state(&domain, "open"), 0);
}

#[test]
fn issues_event_collects_label_names() {
    let mut events = EventStore::new();
    let mut domain = DomainStore::new();
    let body = br#"{
      "repository": {
        "id": 42, "name": "crossbow", "full_name": "acme/crossbow",
        "owner": {"login": "acme"}, "html_url": "https://example.com/r"
      },
      "issue": {
        "id": 77, "number": 3, "title": "It breaks", "state": "open",
        "user": {"login": "octo"},
        "labels": [{"name": "bug"}, {"color": "red"}, {"name": "help wanted"}],
        "html_url": "https://example.com/i/3",
        "created_at": "2024-03-01T12:30:00Z"
      }
    }"#;
    let id = deliver(&mut events, "issues", body, 10);
    process_event_by_source(&mut events, &mut domain, id, "github", 20).unwrap();

    assert_eq!(domain.issues.len(), 1);
    let issue = &domain.issues[0];
    assert_eq!(issue.github_id, 77);
    assert_eq!(issue.labels, vec!["bug".to_string(), "help wanted".to_string()]);
    let expected: chrono::DateTime<chrono::Utc> = "2024-03-01T12:30:00Z".parse().unwrap();
    assert_eq!(issue.opened_at, expected.timestamp_millis());
    assert_eq!(Issue::count(&domain), 1);
    assert_eq!(Issue::count_by_state(&domain, "open"), 1);
}

#[test]
fn push_with_bad_timestamp_aborts_whole_event() {
    let mut events = EventStore::new();
    let mut domain = DomainStore::new();
    let body = br#"{
      "repository": {
        "id": 42, "name": "crossbow", "full_name": "acme/crossbow",
        "owner": {"login": "acme"}, "html_url": "https://example.com/r"
      },
      "commits": [
        {
          "id": "aaa", "message": "ok",
          "author": {"name": "A", "email": "a@x"}, "committer": {"name": "A", "email": "a@x"},
          "timestamp": "2024-01-15T10:00:00Z", "url": "https://example.com/c/aaa"
        },
        {
          "id": "bbb", "message": "broken",
          "author": {"name": "B", "email": "b@x"}, "committer": {"name": "B", "email": "b@x"},
          "timestamp": "not-a-date", "url": "https://example.com/c/bbb"
        }
      ]
    }"#;
    let id = deliver(&mut events, "push", body, 10);
    let err = process_event_by_source(&mut events, &mut domain, id, "github", 20).unwrap_err();
    assert_eq!(err.message(), "Invalid timestamp format");
    // nothing was committed, not even the repository or the first commit
    assert!(domain.repositories.is_empty());
    assert!(domain.commits.is_empty());
    assert!(!events.events[0].processed);
}

#[test]
fn repository_upsert_refreshes_by_natural_key() {
    let mut domain = DomainStore::new();
    let first = CreateRepository {
        github_id: 42,
        name: "old".to_string(),
        full_name: "acme/old".to_string(),
        owner: "acme".to_string(),
        description: None,
        url: "https://example.com/old".to_string(),
        is_private: false,
    };
    let id1 = Repository::create(&mut domain, first, 100);
    let second = CreateRepository {
        github_id: 42,
        name: "new".to_string(),
        full_name: "acme/new".to_string(),
        owner: "acme".to_string(),
        description: Some("renamed".to_string()),
        url: "https://example.com/new".to_string(),
        is_private: true,
    };
    let id2 = Repository::create(&mut domain, second, 200);
    assert_eq!(id1, id2);
    assert_eq!(domain.repositories.len(), 1);
    assert_eq!(domain.repositories[0].name, "new");
    assert_eq!(domain.repositories[0].created_at, 100);
    assert_eq!(domain.repositories[0].updated_at, 200);
    assert_eq!(Repository::count(&domain), 1);
    assert!(Repository::find_by_full_name(&domain, "acme/new").is_some());
    assert!(Repository::find_by_full_name(&domain, "acme/old").is_none());
    assert_eq!(Repository::find_by_id(&domain, id1).unwrap().github_id, 42);
}

#[test]
fn legacy_store_filters_and_counts_agree() {
    let mut store = WebhookEventStore::new();
    for (i, et) in ["push", "issues", "push"].iter().enumerate() {
        WebhookEvent::create(
            &mut store,
            CreateWebhookEvent {
                repository_id: if i == 0 { Some(7) } else { None },
                event_type: et.to_string(),
                event_action: None,
                delivery_id: "00000000-0000-0000-0000-000000000000".to_string(),
                payload: obj(vec![("n", JsonValue::Int(i as i64))]),
                signature: "sha256=aa".to_string(),
            },
            i as i64,
        );
    }
    let pushes = WebhookEvent::search_and_filter(&store, Some("push"), None, None, None, i64::MAX, 0);
    assert_eq!(pushes.iter().map(|e| e.id).collect::<Vec<_>>(), vec![3, 1]);
    assert_eq!(WebhookEvent::count_filtered(&store, Some("push"), None, None, None), 2);
    assert_eq!(WebhookEvent::count_filtered(&store, None, Some(7), None, None), 1);
    assert_eq!(WebhookEvent::count(&store), 3);
    assert_eq!(
        WebhookEvent::get_event_types(&store),
        vec!["issues".to_string(), "push".to_string()]
    );
    WebhookEvent::mark_processed(&mut store, 2, 99);
    assert!(store.events[1].processed);
    assert_eq!(WebhookEvent::count_filtered(&store, None, None, Some(true), None), 1);
    assert_eq!(WebhookEvent::find_by_id(&store, 2).unwrap().event_type, "issues");
    assert_eq!(
        WebhookEvent::list_by_type(&store, "push", i64::MAX, 0).len(),
        2
    );
    assert_eq!(WebhookEvent::list_all(&store, 1, 1).iter().map(|e| e.id).collect::<Vec<_>>(), vec![2]);
    assert_eq!(
        WebhookEvent::list_by_repository(&store, 7, i64::MAX, 0)
            .iter()
            .map(|e| e.id)
            .collect::<Vec<_>>(),
        vec![1]
    );
}

#[test]
fn commit_listings_order_newest_first() {
    let mut domain = DomainStore::new();
    let repo = CreateRepository {
        github_id: 1,
        name: "r".to_string(),
        full_name: "o/r".to_string(),
        owner: "o".to_string(),
        description: None,
        url: "u".to_string(),
        is_private: false,
    };
    let rid = Repository::create(&mut domain, repo, 1);
    for (sha, at, email) in [("a", 300, "x@x"), ("b", 100, "y@y"), ("c", 300, "x@x")] {
        Commit::create(
            &mut domain,
            CreateCommit {
                repository_id: rid,
                webhook_event_id: 1,
                sha: sha.to_string(),
                message: "m".to_string(),
                author_name: "n".to_string(),
                author_email: email.to_string(),
                committer_name: "n".to_string(),
                committer_email: email.to_string(),
                committed_at: at,
                url: "u".to_string(),
            },
            5,
        );
    }
    let all = Commit::list_all(&domain, i64::MAX, 0);
    // newest first; ties keep insertion order
    assert_eq!(all.iter().map(|c| c.sha.as_str()).collect::<Vec<_>>(), vec!["a", "c", "b"]);
    let by_repo = Commit::list_by_repository(&domain, rid, 2, 0);
    assert_eq!(by_repo.len(), 2);
    let by_author = Commit::list_by_author(&domain, "x@x", i64::MAX, 0);
    assert_eq!(by_author.iter().map(|c| c.sha.as_str()).collect::<Vec<_>>(), vec!["a", "c"]);
    assert_eq!(Commit::count(&domain), 3);
    assert_eq!(Commit::count_by_repository(&domain, rid), 3);
    assert!(Repository::list_all(&domain, i64::MAX, 0).len() == 1);
    assert!(PullRequest::list_all(&domain, i64::MAX, 0).is_empty());
    assert!(Issue::list_by_state(&domain, "open", i64::MAX, 0).is_empty());
}
