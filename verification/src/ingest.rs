//! Orchestration of the two ingestion endpoints.
//!
//! The generic endpoint accepts any source: it parses the body, extracts
//! the envelope by the source's conventions, gates `github` traffic on a
//! valid signature, and persists one event. The legacy GitHub endpoint
//! demands the event-type, delivery-id and signature headers outright,
//! stores a legacy row beside the canonical event, and resolves a
//! best-effort repository back-reference. Both return a decision the HTTP
//! layer maps onto status codes; projection runs afterwards, detached.

use vstd::prelude::*;
use vstd::string::StringSliceAdditionalSpecFns;
use vstd::utf8::encode_utf8;

use crate::adapter::Headers;
use crate::adapter::action_of;
use crate::adapter::actor_email_of;
use crate::adapter::actor_id_of;
use crate::adapter::actor_name_of;
use crate::adapter::delivery_id_of;
use crate::adapter::event_type_of;
use crate::adapter::extract_action;
use crate::adapter::extract_actor_info;
use crate::adapter::extract_delivery_id;
use crate::adapter::extract_event_type;
use crate::adapter::extract_signature;
use crate::adapter::generate_delivery_id;
use crate::adapter::signature_of;
use crate::adapter::uuid_parse_of;
use crate::domain::DomainStore;
use crate::domain::Repository;
use crate::domain::repo_name_pred;
use crate::event::CreateEvent;
use crate::event::Event;
use crate::event::EventStore;
use crate::find::find_first;
use crate::json::JsonValue;
use crate::json::spec_get;
use crate::project::convert_github_webhook_to_event;
use crate::project::gh_actor_email;
use crate::project::gh_actor_id;
use crate::project::gh_actor_name;
use crate::project::i64_at2;
use crate::project::str_at2;
use crate::signature::spec_signature_valid;
use crate::signature::verify_github_signature;
use crate::strutil::str_eq;
use crate::webhook_event::CreateWebhookEvent;
use crate::webhook_event::WebhookEvent;
use crate::webhook_event::WebhookEventStore;
use crate::domain::view_opt_string;

verus! {

/// What `serde_json` parses a byte body to, projected onto the library's
/// payload model (object members in `serde_json`'s order, integers where a
/// number fits an `i64`, `NonInt` otherwise): a function of the bytes
/// alone.
pub uninterp spec fn json_parse_of(b: Seq<u8>) -> Option<JsonValue>;

/// Relies on `serde_json::from_slice`: succeeds exactly on well-formed JSON
/// and depends only on the input bytes; the value is converted one-for-one
/// into the library's payload model.
#[verifier::external_body]
fn parse_json_bytes(body: &[u8]) -> (r: Option<JsonValue>)
    ensures
        r == json_parse_of(body@),
{
    serde_json::from_slice::<serde_json::Value>(body).ok().map(convert_value)
}

/// The parsed form `serde_json` hands back, opaque to the verifier.
#[verifier::external_type_specification]
#[verifier::external_body]
pub struct ExValue(serde_json::Value);

/// Relies on `serde_json::Value`'s variants: converts each to the matching
/// library variant, moving fields; numbers outside `i64` become `NonInt`.
#[verifier::external_body]
fn convert_value(v: serde_json::Value) -> JsonValue {
    match v {
        serde_json::Value::Null => JsonValue::Null,
        serde_json::Value::Bool(b) => JsonValue::Bool(b),
        serde_json::Value::Number(n) => match n.as_i64() {
            Some(i) => JsonValue::Int(i),
            None => JsonValue::NonInt,
        },
        serde_json::Value::String(s) => JsonValue::Str(s),
        serde_json::Value::Array(a) => JsonValue::Arr(a.into_iter().map(convert_value).collect()),
        serde_json::Value::Object(o) => JsonValue::Obj(
            o.into_iter().map(|(k, x)| (k, convert_value(x))).collect(),
        ),
    }
}

/// The decision of the generic multi-source endpoint.
pub enum GenericOutcome {
    /// Accepted and stored: respond 200 with the event id and type.
    Received { event_id: i64, event_type: String },
    /// The body is not JSON: respond 400.
    InvalidJson,
    /// A `github` delivery without a signature header: respond 401.
    MissingSignature,
    /// A `github` delivery whose signature does not verify: respond 401.
    InvalidSignature,
}

/// The stored envelope of an accepted generic delivery: one new row whose
/// fields come from the adapter, with a generated delivery id (36
/// characters) where the source supplied none.
pub open spec fn generic_event_stored(
    oe: EventStore,
    ne: EventStore,
    source: &str,
    headers: Headers,
    payload: JsonValue,
    now: i64,
    event_id: i64,
) -> bool {
    &&& event_id == oe.events@.len() + 1
    &&& ne.events@.len() == oe.events@.len() + 1
    &&& ne.events@.take(oe.events@.len() as int) == oe.events@
    &&& ({
        let e = ne.events@.last();
        &&& e.id == event_id
        &&& e.source@ == source@
        &&& e.event_type@ == event_type_of(source@, payload, headers)
        &&& view_opt_string(e.action) == action_of(payload)
        &&& view_opt_string(e.actor_name) == actor_name_of(source@, payload)
        &&& view_opt_string(e.actor_email) == actor_email_of(source@, payload)
        &&& view_opt_string(e.actor_id) == actor_id_of(source@, payload)
        &&& e.raw_event == payload
        &&& (match delivery_id_of(source@, headers) {
            Some(d) => e.delivery_id@ == d,
            None => e.delivery_id@.len() == 36,
        })
        &&& view_opt_string(e.signature) == signature_of(source@, headers)
        &&& e.received_at == now
        &&& e.processed == false
        &&& e.processed_at is None
        &&& e.repository_id is None
    })
}

/// Ingests one delivery on the generic multi-source path: parse, extract,
/// gate `github` traffic on its signature, persist. Projection is the
/// caller's next, detached step.
pub fn handle_generic_webhook(
    events: &mut EventStore,
    source: &str,
    headers: &Headers,
    body: &[u8],
    secret: &str,
    now: i64,
) -> (r: GenericOutcome)
    requires
        old(events).well_formed(),
        old(events).events@.len() < i64::MAX,
    ensures
        final(events).well_formed(),
        match json_parse_of(body@) {
            None => r is InvalidJson && *final(events) == *old(events),
            Some(payload) => {
                if source@ == "github"@ {
                    match signature_of(source@, *headers) {
                        None => r is MissingSignature && *final(events) == *old(events),
                        Some(sig) => {
                            if spec_signature_valid(secret.spec_bytes(), body@, encode_utf8(sig)) {
                                r matches GenericOutcome::Received { event_id, event_type }
                                    && generic_event_stored(
                                    *old(events),
                                    *final(events),
                                    source,
                                    *headers,
                                    payload,
                                    now,
                                    event_id,
                                ) && event_type@ == event_type_of(source@, payload, *headers)
                            } else {
                                r is InvalidSignature && *final(events) == *old(events)
                            }
                        },
                    }
                } else {
                    r matches GenericOutcome::Received { event_id, event_type }
                        && generic_event_stored(
                        *old(events),
                        *final(events),
                        source,
                        *headers,
                        payload,
                        now,
                        event_id,
                    ) && event_type@ == event_type_of(source@, payload, *headers)
                }
            },
        },
{
    let delivery_id = match extract_delivery_id(source, headers) {
        Some(d) => d,
        None => generate_delivery_id(),
    };
    let payload = match parse_json_bytes(body) {
        Some(p) => p,
        None => {
            return GenericOutcome::InvalidJson;
        },
    };
    let event_type = extract_event_type(source, &payload, headers);
    let action = extract_action(source, &payload);
    let signature = extract_signature(source, headers);
    if str_eq(source, "github") {
        match &signature {
            Some(sig) => {
                if !verify_github_signature(secret, body, sig.as_str()) {
                    return GenericOutcome::InvalidSignature;
                }
            },
            None => {
                return GenericOutcome::MissingSignature;
            },
        }
    }
    let (actor_name, actor_email, actor_id) = extract_actor_info(source, &payload);
    let data = CreateEvent {
        source: source.to_owned(),
        event_type: event_type.clone(),
        action,
        actor_name,
        actor_email,
        actor_id,
        raw_event: payload,
        delivery_id,
        signature,
        repository_id: None,
    };
    let event_id = Event::create(events, data, now);
    proof {
        assert(final(events).events@.take(old(events).events@.len() as int) =~= old(events).events@);
    }
    GenericOutcome::Received { event_id, event_type }
}

/// The decision of the legacy GitHub-only endpoint.
pub enum GithubOutcome {
    /// Accepted and stored: respond 200 with the event id.
    Received { event_id: i64 },
    /// The event-type header is missing: respond 400.
    MissingEventHeader,
    /// The delivery-id header is missing or not a UUID: respond 400.
    InvalidDeliveryHeader,
    /// The signature header is missing: respond 400.
    MissingSignatureHeader,
    /// The signature does not verify: respond 401.
    InvalidSignature,
    /// The body is not JSON: respond 400.
    InvalidJson,
}

/// The best-effort repository back-reference of a legacy delivery: only
/// when the payload names a repository object with an integer id, the first
/// stored repository whose full name matches (the empty string when the
/// payload has none).
pub open spec fn repo_ref_of(domain: DomainStore, p: JsonValue) -> Option<i64> {
    if spec_get(p, "repository"@) matches Some(ro) && ro is Obj && i64_at2(
        p,
        "repository"@,
        "id"@,
    ) is Some {
        let full_name = match str_at2(p, "repository"@, "full_name"@) {
            Some(s) => s,
            None => Seq::empty(),
        };
        match find_first(domain.repo_rows(), repo_name_pred(full_name)) {
            Some(j) => Some(domain.repositories@[j].id),
            None => None,
        }
    } else {
        None
    }
}

/// The stored rows of an accepted legacy delivery: one legacy row and one
/// canonical event row, both carrying the delivery's headers and payload.
pub open spec fn github_event_stored(
    oe: EventStore,
    ne: EventStore,
    ol: WebhookEventStore,
    nl: WebhookEventStore,
    domain: DomainStore,
    headers: Headers,
    payload: JsonValue,
    now: i64,
    event_id: i64,
) -> bool {
    let event_type = headers.spec_get("X-GitHub-Event"@)->0;
    let delivery = uuid_parse_of(headers.spec_get("X-GitHub-Delivery"@)->0)->0;
    let sig = headers.spec_get("X-Hub-Signature-256"@)->0;
    &&& nl.events@.len() == ol.events@.len() + 1
    &&& nl.events@.take(ol.events@.len() as int) == ol.events@
    &&& ({
        let l = nl.events@.last();
        &&& l.repository_id == repo_ref_of(domain, payload)
        &&& l.event_type@ == event_type
        &&& view_opt_string(l.event_action) == action_of(payload)
        &&& l.delivery_id@ == delivery
        &&& l.payload == payload
        &&& l.signature@ == sig
        &&& l.received_at == now
        &&& l.processed == false
    })
    &&& event_id == oe.events@.len() + 1
    &&& ne.events@.len() == oe.events@.len() + 1
    &&& ne.events@.take(oe.events@.len() as int) == oe.events@
    &&& ({
        let e = ne.events@.last();
        &&& e.id == event_id
        &&& e.source@ == "github"@
        &&& e.event_type@ == event_type
        &&& view_opt_string(e.action) == action_of(payload)
        &&& view_opt_string(e.actor_name) == gh_actor_name(payload)
        &&& view_opt_string(e.actor_email) == gh_actor_email(payload)
        &&& view_opt_string(e.actor_id) == gh_actor_id(payload)
        &&& e.raw_event == payload
        &&& e.delivery_id@ == delivery
        &&& view_opt_string(e.signature) == Some(sig)
        &&& e.received_at == now
        &&& e.processed == false
        &&& e.repository_id == repo_ref_of(domain, payload)
    })
}

/// Ingests one delivery on the legacy GitHub-only path: every header is
/// mandatory, the signature must verify, and both the legacy row and the
/// canonical event are stored. Projection is the caller's next, detached
/// step.
pub fn handle_github_webhook(
    events: &mut EventStore,
    legacy: &mut WebhookEventStore,
    domain: &DomainStore,
    headers: &Headers,
    body: &[u8],
    secret: &str,
    now: i64,
) -> (r: GithubOutcome)
    requires
        old(events).well_formed(),
        old(events).events@.len() < i64::MAX,
        old(legacy).well_formed(),
        old(legacy).events@.len() < i64::MAX,
    ensures
        final(events).well_formed(),
        final(legacy).well_formed(),
        match headers.spec_get("X-GitHub-Event"@) {
            None => r is MissingEventHeader && *final(events) == *old(events) && *final(legacy)
                == *old(legacy),
            Some(_) => {
                match headers.spec_get("X-GitHub-Delivery"@) {
                    None => r is InvalidDeliveryHeader && *final(events) == *old(events) && *final(legacy) == *old(legacy),
                    Some(dh) => {
                        if uuid_parse_of(dh) is None {
                            r is InvalidDeliveryHeader && *final(events) == *old(events) && *final(legacy) == *old(legacy)
                        } else {
                            match headers.spec_get("X-Hub-Signature-256"@) {
                                None => r is MissingSignatureHeader && *final(events) == *old(events) && *final(legacy) == *old(legacy),
                                Some(sig) => {
                                    if !spec_signature_valid(
                                        secret.spec_bytes(),
                                        body@,
                                        encode_utf8(sig),
                                    ) {
                                        r is InvalidSignature && *final(events) == *old(events)
                                            && *final(legacy) == *old(legacy)
                                    } else {
                                        match json_parse_of(body@) {
                                            None => r is InvalidJson && *final(events) == *old(events) && *final(legacy) == *old(legacy),
                                            Some(payload) => r
                                                matches GithubOutcome::Received { event_id }
                                                && github_event_stored(
                                                *old(events),
                                                *final(events),
                                                *old(legacy),
                                                *final(legacy),
                                                *domain,
                                                *headers,
                                                payload,
                                                now,
                                                event_id,
                                            ),
                                        }
                                    }
                                },
                            }
                        }
                    },
                }
            },
        },
{
    let event_type = match headers.get("X-GitHub-Event") {
        Some(h) => h.to_owned(),
        None => {
            return GithubOutcome::MissingEventHeader;
        },
    };
    let delivery_header = match headers.get("X-GitHub-Delivery") {
        Some(h) => h,
        None => {
            return GithubOutcome::InvalidDeliveryHeader;
        },
    };
    let delivery_id = match crate::adapter::parse_uuid(delivery_header) {
        Some(d) => d,
        None => {
            return GithubOutcome::InvalidDeliveryHeader;
        },
    };
    let signature = match headers.get("X-Hub-Signature-256") {
        Some(h) => h.to_owned(),
        None => {
            return GithubOutcome::MissingSignatureHeader;
        },
    };
    if !verify_github_signature(secret, body, signature.as_str()) {
        return GithubOutcome::InvalidSignature;
    }
    let payload = match parse_json_bytes(body) {
        Some(p) => p,
        None => {
            return GithubOutcome::InvalidJson;
        },
    };
    let legacy_payload = match parse_json_bytes(body) {
        Some(p) => p,
        None => {
            return GithubOutcome::InvalidJson;
        },
    };
    let event_action = crate::adapter::extract_action("github", &payload);
    let legacy_action = crate::adapter::extract_action("github", &legacy_payload);
    let repository_id = lookup_repository_ref(domain, &payload);
    let legacy_data = CreateWebhookEvent {
        repository_id,
        event_type: event_type.clone(),
        event_action: legacy_action,
        delivery_id: delivery_id.clone(),
        payload: legacy_payload,
        signature: signature.clone(),
    };
    let _legacy_id = WebhookEvent::create(legacy, legacy_data, now);
    let data = convert_github_webhook_to_event(
        event_type,
        event_action,
        payload,
        delivery_id,
        Some(signature),
        repository_id,
    );
    let event_id = Event::create(events, data, now);
    proof {
        assert(final(events).events@.take(old(events).events@.len() as int) =~= old(events).events@);
        assert(final(legacy).events@.take(old(legacy).events@.len() as int) =~= old(legacy).events@);
    }
    GithubOutcome::Received { event_id }
}

fn lookup_repository_ref(domain: &DomainStore, payload: &JsonValue) -> (r: Option<i64>)
    ensures
        r == repo_ref_of(*domain, *payload),
{
    match payload.get("repository") {
        Some(ro) => {
            if !ro.is_object() {
                return None;
            }
            match crate::project::get_i64_at2(payload, "repository", "id") {
                Some(_) => {},
                None => {
                    return None;
                },
            }
            let full_name = match crate::project::get_str_at2(payload, "repository", "full_name") {
                Some(s) => s.to_owned(),
                None => String::new(),
            };
            match Repository::find_by_full_name(domain, full_name.as_str()) {
                Some(repo) => Some(repo.id),
                None => None,
            }
        },
        None => None,
    }
}

} // verus!
