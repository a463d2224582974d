use crossbow::adapter::Headers;
use crossbow::domain::DomainStore;
use crossbow::event::EventStore;
use crossbow::ingest::{handle_generic_webhook, handle_github_webhook, GenericOutcome, GithubOutcome};
use crossbow::project::process_event_by_source;
use crossbow::webhook_event::WebhookEventStore;
use hmac::Mac;

const SECRET: &str = "test_secret";

const PUSH_BODY: &str = r#"{
  "repository": {
    "id": 42,
    "name": "crossbow",
    "full_name": "acme/crossbow",
    "owner": {"login": "acme"},
    "html_url": "https://example.com/acme/crossbow",
    "private": false
  },
  "sender": {"login": "octo", "id": 7},
  "commits": [
    {
      "id": "aaa111",
      "message": "first",
      "author": {"name": "Ada", "email": "ada@example.com"},
      "committer": {"name": "Ada", "email": "ada@example.com"},
      "timestamp": "2024-01-15T10:00:00Z",
      "url": "https://example.com/c/aaa111"
    },
    {
      "id": "bbb222",
      "message": "second",
      "author": {"name": "Bo", "email": "bo@example.com"},
      "committer": {"name": "Bo", "email": "bo@example.com"},
      "timestamp": "2024-01-15T11:00:00Z",
      "url": "https://example.com/c/bbb222"
    }
  ]
}"#;

fn sign(body: &[u8]) -> String {
    let mut mac = hmac::Hmac::<sha2::Sha256>::new_from_slice(SECRET.as_bytes()).unwrap();
    mac.update(body);
    format!("sha256={}", hex::encode(mac.finalize().into_bytes()))
}

fn github_headers(body: &[u8], event: &str) -> Headers {
    let mut h = Headers::new();
    h.push("X-GitHub-Event".to_string(), event.to_string());
    h.push(
        "X-GitHub-Delivery".to_string(),
        "123e4567-e89b-12d3-a456-426614174000".to_string(),
    );
    h.push("X-Hub-Signature-256".to_string(), sign(body));
    h
}

#[test]
fn signed_push_is_stored_and_projected() {
    let mut events = EventStore::new();
    let mut domain = DomainStore::new();
    let body = PUSH_BODY.as_bytes();
    let headers = github_headers(body, "push");

    let outcome = handle_generic_webhook(&mut events, "github", &headers, body, SECRET, 1000);
    let event_id = match outcome {
        GenericOutcome::Received { event_id, event_type } => {
            assert_eq!(event_type, "push");
            event_id
        },
        _ => panic!("push delivery was not accepted"),
    };
    assert_eq!(event_id, 1);
    assert_eq!(events.events[0].source, "github");
    assert_eq!(events.events[0].actor_name.as_deref(), Some("octo"));
    assert_eq!(
        events.events[0].delivery_id,
        "123e4567-e89b-12d3-a456-426614174000"
    );
    assert!(!events.events[0].processed);

    process_event_by_source(&mut events, &mut domain, event_id, "github", 2000).unwrap();

    assert_eq!(domain.repositories.len(), 1);
    assert_eq!(domain.repositories[0].github_id, 42);
    assert_eq!(domain.repositories[0].full_name, "acme/crossbow");
    assert_eq!(domain.commits.len(), 2);
    assert_eq!(domain.commits[0].sha, "aaa111");
    assert_eq!(domain.commits[1].sha, "bbb222");
    assert_eq!(domain.commits[0].repository_id, domain.repositories[0].id);
    let expected: chrono::DateTime<chrono::Utc> = "2024-01-15T10:00:00Z".parse().unwrap();
    assert_eq!(domain.commits[0].committed_at, expected.timestamp_millis());
    assert!(events.events[0].processed);
    assert_eq!(events.events[0].processed_at, Some(2000));
}

#[test]
fn redelivered_push_creates_no_duplicate_commits() {
    let mut events = EventStore::new();
    let mut domain = DomainStore::new();
    let body = PUSH_BODY.as_bytes();
    let headers = github_headers(body, "push");

    let first = handle_generic_webhook(&mut events, "github", &headers, body, SECRET, 1000);
    let id1 = match first {
        GenericOutcome::Received { event_id, .. } => event_id,
        _ => panic!("first delivery rejected"),
    };
    process_event_by_source(&mut events, &mut domain, id1, "github", 2000).unwrap();

    let second = handle_generic_webhook(&mut events, "github", &headers, body, SECRET, 3000);
    let id2 = match second {
        GenericOutcome::Received { event_id, .. } => event_id,
        _ => panic!("redelivery rejected"),
    };
    assert_ne!(id1, id2);
    process_event_by_source(&mut events, &mut domain, id2, "github", 4000).unwrap();

    assert_eq!(domain.repositories.len(), 1);
    assert_eq!(domain.commits.len(), 2);
    // the second run refreshed rows but kept their provenance
    assert_eq!(domain.commits[0].webhook_event_id, id1);
}

#[test]
fn github_without_signature_is_unauthorized() {
    let mut events = EventStore::new();
    let body = PUSH_BODY.as_bytes();
    let mut headers = Headers::new();
    headers.push("X-GitHub-Event".to_string(), "push".to_string());

    let outcome = handle_generic_webhook(&mut events, "github", &headers, body, SECRET, 1000);
    assert!(matches!(outcome, GenericOutcome::MissingSignature));
    assert!(events.events.is_empty());
}

#[test]
fn github_with_bad_signature_is_unauthorized() {
    let mut events = EventStore::new();
    let body = PUSH_BODY.as_bytes();
    let mut headers = Headers::new();
    headers.push("X-GitHub-Event".to_string(), "push".to_string());
    headers.push("X-Hub-Signature-256".to_string(), "sha256=00ff".to_string());

    let outcome = handle_generic_webhook(&mut events, "github", &headers, body, SECRET, 1000);
    assert!(matches!(outcome, GenericOutcome::InvalidSignature));
    assert!(events.events.is_empty());
}

#[test]
fn invalid_json_is_rejected() {
    let mut events = EventStore::new();
    let headers = Headers::new();
    let outcome =
        handle_generic_webhook(&mut events, "custom-ci", &headers, b"{not json", SECRET, 1000);
    assert!(matches!(outcome, GenericOutcome::InvalidJson));
    assert!(events.events.is_empty());
}

#[test]
fn unrecognized_source_passes_unauthenticated_and_is_marked_processed() {
    let mut events = EventStore::new();
    let mut domain = DomainStore::new();
    let body = br#"{"event_type": "deploy-finished", "actor": "ci-bot"}"#;
    let headers = Headers::new();

    let outcome = handle_generic_webhook(&mut events, "custom-ci", &headers, body, SECRET, 1000);
    let event_id = match outcome {
        GenericOutcome::Received { event_id, event_type } => {
            assert_eq!(event_type, "deploy-finished");
            event_id
        },
        _ => panic!("custom source delivery rejected"),
    };
    assert_eq!(events.events[0].source, "custom-ci");
    assert_eq!(events.events[0].actor_name.as_deref(), Some("ci-bot"));
    // no source-supplied delivery id: one was generated
    assert_eq!(events.events[0].delivery_id.len(), 36);

    process_event_by_source(&mut events, &mut domain, event_id, "custom-ci", 2000).unwrap();
    assert!(events.events[0].processed);
    assert!(domain.repositories.is_empty());
    assert!(domain.commits.is_empty());
    assert!(domain.pull_requests.is_empty());
    assert!(domain.issues.is_empty());
}

#[test]
fn pull_request_missing_base_ref_aborts_without_partial_row() {
    let mut events = EventStore::new();
    let mut domain = DomainStore::new();
    let body = br#"{
      "repository": {
        "id": 42,
        "name": "crossbow",
        "full_name": "acme/crossbow",
        "owner": {"login": "acme"},
        "html_url": "https://example.com/acme/crossbow"
      },
      "pull_request": {
        "id": 900,
        "number": 5,
        "title": "broken",
        "state": "open",
        "user": {"login": "octo"},
        "head": {"ref": "feature"},
        "html_url": "https://example.com/pr/5",
        "created_at": "2024-02-01T00:00:00Z"
      }
    }"#;
    let headers = github_headers(body, "pull_request");

    let outcome = handle_generic_webhook(&mut events, "github", &headers, body, SECRET, 1000);
    let event_id = match outcome {
        GenericOutcome::Received { event_id, .. } => event_id,
        _ => panic!("delivery rejected"),
    };

    let r = process_event_by_source(&mut events, &mut domain, event_id, "github", 2000);
    let err = r.unwrap_err();
    assert_eq!(err.message(), "Missing base branch");
    assert!(domain.pull_requests.is_empty());
    assert!(domain.repositories.is_empty());
    assert!(!events.events[0].processed);
    assert_eq!(events.events[0].processed_at, None);
}

#[test]
fn legacy_github_endpoint_requires_headers() {
    let mut events = EventStore::new();
    let mut legacy = WebhookEventStore::new();
    let domain = DomainStore::new();
    let body = PUSH_BODY.as_bytes();

    let outcome =
        handle_github_webhook(&mut events, &mut legacy, &domain, &Headers::new(), body, SECRET, 1);
    assert!(matches!(outcome, GithubOutcome::MissingEventHeader));

    let mut h = Headers::new();
    h.push("X-GitHub-Event".to_string(), "push".to_string());
    h.push("X-GitHub-Delivery".to_string(), "not-a-uuid".to_string());
    let outcome = handle_github_webhook(&mut events, &mut legacy, &domain, &h, body, SECRET, 1);
    assert!(matches!(outcome, GithubOutcome::InvalidDeliveryHeader));

    let mut h = Headers::new();
    h.push("X-GitHub-Event".to_string(), "push".to_string());
    h.push(
        "X-GitHub-Delivery".to_string(),
        "123e4567-e89b-12d3-a456-426614174000".to_string(),
    );
    let outcome = handle_github_webhook(&mut events, &mut legacy, &domain, &h, body, SECRET, 1);
    assert!(matches!(outcome, GithubOutcome::MissingSignatureHeader));

    assert!(events.events.is_empty());
    assert!(legacy.events.is_empty());
}

#[test]
fn legacy_github_endpoint_stores_both_rows() {
    let mut events = EventStore::new();
    let mut legacy = WebhookEventStore::new();
    let domain = DomainStore::new();
    let body = PUSH_BODY.as_bytes();
    let headers = github_headers(body, "push");

    let outcome =
        handle_github_webhook(&mut events, &mut legacy, &domain, &headers, body, SECRET, 500);
    let event_id = match outcome {
        GithubOutcome::Received { event_id } => event_id,
        _ => panic!("legacy delivery rejected"),
    };
    assert_eq!(event_id, 1);
    assert_eq!(legacy.events.len(), 1);
    assert_eq!(legacy.events[0].event_type, "push");
    assert_eq!(
        legacy.events[0].delivery_id,
        "123e4567-e89b-12d3-a456-426614174000"
    );
    // no repository stored yet, so no back-reference resolved
    assert_eq!(legacy.events[0].repository_id, None);
    assert_eq!(events.events.len(), 1);
    assert_eq!(events.events[0].source, "github");
    assert_eq!(events.events[0].actor_name.as_deref(), Some("octo"));
}
