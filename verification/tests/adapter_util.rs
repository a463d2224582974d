use crossbow::adapter::{
    extract_action, extract_actor_info, extract_delivery_id, extract_event_type,
    extract_signature, Headers,
};
use crossbow::config::{Config, ConfigError};
use crossbow::json::JsonValue;
use crossbow::pagination::{default_page, default_per_page, Pagination, PaginationParams};
use crossbow::strutil::{contains_ci, i64_to_string, u64_to_string};
use crossbow::text::render_payload;

fn obj(members: Vec<(&str, JsonValue)>) -> JsonValue {
    JsonValue::Obj(members.into_iter().map(|(k, v)| (k.to_string(), v)).collect())
}

fn s(v: &str) -> JsonValue {
    JsonValue::Str(v.to_string())
}

#[test]
fn event_type_prefers_github_header() {
    let mut h = Headers::new();
    h.push("X-GitHub-Event".to_string(), "push".to_string());
    let p = obj(vec![("type", s("ignored"))]);
    assert_eq!(extract_event_type("github", &p, &h), "push");
    assert_eq!(extract_event_type("github", &p, &Headers::new()), "unknown");
}

#[test]
fn event_type_gitlab_falls_back_to_object_kind() {
    let p = obj(vec![("object_kind", s("merge_request"))]);
    assert_eq!(extract_event_type("gitlab", &p, &Headers::new()), "merge_request");
    let mut h = Headers::new();
    h.push("X-Gitlab-Event".to_string(), "Push Hook".to_string());
    assert_eq!(extract_event_type("gitlab", &p, &h), "Push Hook");
}

#[test]
fn event_type_generic_candidates_in_order() {
    let h = Headers::new();
    assert_eq!(
        extract_event_type("custom", &obj(vec![("event", s("a")), ("event_type", s("b"))]), &h),
        "a"
    );
    assert_eq!(extract_event_type("custom", &obj(vec![("event_type", s("b"))]), &h), "b");
    assert_eq!(extract_event_type("custom", &obj(vec![]), &h), "webhook");
    assert_eq!(extract_event_type("auth0", &obj(vec![]), &h), "unknown");
}

#[test]
fn action_reads_action_then_event_action() {
    assert_eq!(
        extract_action("github", &obj(vec![("action", s("opened"))])).as_deref(),
        Some("opened")
    );
    assert_eq!(
        extract_action("x", &obj(vec![("event_action", s("closed"))])).as_deref(),
        Some("closed")
    );
    assert_eq!(extract_action("x", &obj(vec![])), None);
}

#[test]
fn signature_headers_by_source() {
    let mut h = Headers::new();
    h.push("X-Hub-Signature-256".to_string(), "sha256=aa".to_string());
    h.push("X-Gitlab-Token".to_string(), "tok".to_string());
    assert_eq!(extract_signature("github", &h).as_deref(), Some("sha256=aa"));
    assert_eq!(extract_signature("gitlab", &h).as_deref(), Some("tok"));
    assert_eq!(extract_signature("other", &h), None);
}

#[test]
fn delivery_id_parses_and_normalizes() {
    let mut h = Headers::new();
    h.push(
        "X-GitHub-Delivery".to_string(),
        "123E4567-E89B-12D3-A456-426614174000".to_string(),
    );
    assert_eq!(
        extract_delivery_id("github", &h).as_deref(),
        Some("123e4567-e89b-12d3-a456-426614174000")
    );
    let mut bad = Headers::new();
    bad.push("X-GitHub-Delivery".to_string(), "zzz".to_string());
    assert_eq!(extract_delivery_id("github", &bad), None);
    assert_eq!(extract_delivery_id("custom", &h), None);
}

#[test]
fn actor_info_per_source() {
    let gh = obj(vec![(
        "sender",
        obj(vec![("login", s("octo")), ("id", JsonValue::Int(7))]),
    )]);
    let (name, email, id) = extract_actor_info("github", &gh);
    assert_eq!(name.as_deref(), Some("octo"));
    assert_eq!(email, None);
    assert_eq!(id.as_deref(), Some("octo"));

    let gh2 = obj(vec![("sender", obj(vec![("id", JsonValue::Int(7))]))]);
    let (_, _, id) = extract_actor_info("github", &gh2);
    assert_eq!(id.as_deref(), Some("7"));

    let gl = obj(vec![("user_username", s("mira")), ("user_id", JsonValue::Int(31))]);
    let (name, _, id) = extract_actor_info("gitlab", &gl);
    assert_eq!(name.as_deref(), Some("mira"));
    assert_eq!(id.as_deref(), Some("31"));

    let a0 = obj(vec![(
        "user",
        obj(vec![("name", s("kim")), ("email", s("kim@example.com")), ("user_id", s("auth0|1"))]),
    )]);
    let (name, email, id) = extract_actor_info("auth0", &a0);
    assert_eq!(name.as_deref(), Some("kim"));
    assert_eq!(email.as_deref(), Some("kim@example.com"));
    assert_eq!(id.as_deref(), Some("auth0|1"));

    let generic = obj(vec![("actor", s("bot")), ("email", s("bot@example.com"))]);
    let (name, email, _) = extract_actor_info("custom", &generic);
    assert_eq!(name.as_deref(), Some("bot"));
    assert_eq!(email.as_deref(), Some("bot@example.com"));
}

#[test]
fn decimal_rendering_is_exact() {
    assert_eq!(u64_to_string(0), "0");
    assert_eq!(u64_to_string(90210), "90210");
    assert_eq!(i64_to_string(-42), "-42");
    assert_eq!(i64_to_string(i64::MIN), "-9223372036854775808");
    assert_eq!(i64_to_string(i64::MAX), "9223372036854775807");
}

#[test]
fn payload_text_rendering_is_exact() {
    let v = obj(vec![
        ("a", JsonValue::Int(-5)),
        ("b", JsonValue::Arr(vec![JsonValue::Null, JsonValue::Bool(true), s("x")])),
        ("c", JsonValue::NonInt),
    ]);
    assert_eq!(render_payload(&v), "{\"a\":-5,\"b\":[null,true,\"x\"],\"c\":#}");
}

#[test]
fn contains_ci_folds_ascii_case() {
    assert!(contains_ci("Hello World", "WORLD"));
    assert!(contains_ci("Hello", ""));
    assert!(!contains_ci("Hello", "mars"));
}

#[test]
fn pagination_params_clamp_and_offset() {
    let p = PaginationParams { page: 3, per_page: 25 };
    assert_eq!(p.offset(), 50);
    assert_eq!(p.limit(), 25);
    let p = PaginationParams { page: -1, per_page: 500 };
    assert_eq!(p.offset(), 0);
    assert_eq!(p.limit(), 100);
    let p = PaginationParams { page: 1, per_page: 0 };
    assert_eq!(p.limit(), 1);
    assert_eq!(default_page(), 1);
    assert_eq!(default_per_page(), 20);
}

#[test]
fn pagination_total_pages_rounds_up() {
    let p = Pagination::new(2, 20, 41);
    assert_eq!(p.total_pages, 3);
    assert!(p.has_next);
    assert!(p.has_prev);
    assert_eq!(p.next_page(), Some(3));
    assert_eq!(p.prev_page(), Some(1));
    let p = Pagination::new(1, 20, 0);
    assert_eq!(p.total_pages, 0);
    assert_eq!(p.next_page(), None);
    assert_eq!(p.prev_page(), None);
}

#[test]
fn config_formats_server_address() {
    let c = Config {
        host: "0.0.0.0".to_string(),
        port: 3010,
        database_url: "postgres://localhost/db".to_string(),
        github_webhook_secret: "hook-secret".to_string(),
        max_connections: 5,
    };
    assert_eq!(c.server_address(), "0.0.0.0:3010");
}

#[test]
fn config_error_messages() {
    assert_eq!(
        ConfigError::MissingDatabaseUrl.message(),
        "DATABASE_URL environment variable is required"
    );
    assert_eq!(
        ConfigError::MissingWebhookSecret.message(),
        "GITHUB_WEBHOOK_SECRET environment variable is required"
    );
    assert_eq!(ConfigError::InvalidPort.message(), "Invalid PORT value");
}
