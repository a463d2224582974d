//! Per-source extraction of event metadata from request headers and
//! payload fields.
//!
//! Each supported source (`github`, `gitlab`, `auth0`, and a generic
//! fallback) defines its own header names and payload paths for the event
//! type, action, actor identity, delivery id and signature. Header names
//! are matched exactly; the caller normalizes case.

use vstd::prelude::*;

use crate::json::JsonValue;
use crate::project::str_at;
use crate::project::str_at2;
use crate::project::i64_at;
use crate::project::i64_at2;
use crate::strutil::spec_dec_i64;
use crate::strutil::i64_to_string;
use crate::strutil::str_eq;
use crate::domain::view_opt_string;

verus! {

/// The request headers handed to the adapter, as name/value pairs.
pub struct Headers {
    pub pairs: Vec<(String, String)>,
}

/// The value of the first header with this name.
pub open spec fn spec_header_in(pairs: Seq<(String, String)>, name: Seq<char>) -> Option<
    Seq<char>,
>
    decreases pairs.len(),
{
    if pairs.len() == 0 {
        None
    } else if pairs[0].0@ == name {
        Some(pairs[0].1@)
    } else {
        spec_header_in(pairs.skip(1), name)
    }
}

impl Headers {
    /// The value of the first header with this name.
    pub open spec fn spec_get(self, name: Seq<char>) -> Option<Seq<char>> {
        spec_header_in(self.pairs@, name)
    }

    pub fn new() -> (h: Headers)
        ensures
            h.pairs@.len() == 0,
    {
        Headers { pairs: Vec::new() }
    }

    /// Adds a header pair.
    pub fn push(&mut self, name: String, value: String)
        ensures
            final(self).pairs@ == old(self).pairs@.push((name, value)),
    {
        self.pairs.push((name, value));
    }

    /// Looks a header up by exact name.
    pub fn get<'a>(&'a self, name: &str) -> (r: Option<&'a str>)
        ensures
            match r {
                Some(v) => self.spec_get(name@) == Some(v@),
                None => self.spec_get(name@) is None,
            },
    {
        let n = self.pairs.len();
        assert(self.pairs@.skip(0) =~= self.pairs@);
        for i in 0..n
            invariant
                n == self.pairs@.len(),
                spec_header_in(self.pairs@, name@) == spec_header_in(
                    self.pairs@.skip(i as int),
                    name@,
                ),
        {
            assert(self.pairs@.skip(i as int)[0] == self.pairs@[i as int]);
            if str_eq(self.pairs[i].0.as_str(), name) {
                assert(spec_header_in(self.pairs@.skip(i as int), name@) == Some(
                    self.pairs@[i as int].1@,
                ));
                return Some(self.pairs[i].1.as_str());
            }
            assert(self.pairs@.skip(i as int).skip(1) =~= self.pairs@.skip(i + 1));
        }
        assert(self.pairs@.skip(n as int).len() == 0);
        None
    }
}

/// What `uuid::Uuid::parse_str` makes of a string: the canonical hyphenated
/// lowercase rendering if the string is one of the crate's accepted UUID
/// formats, `None` otherwise. A function of the string alone.
pub uninterp spec fn uuid_parse_of(s: Seq<char>) -> Option<Seq<char>>;

/// Relies on `uuid::Uuid::parse_str` and the `Display` of `Uuid`, which
/// renders the canonical hyphenated lowercase form of 36 characters.
#[verifier::external_body]
pub(crate) fn parse_uuid(s: &str) -> (r: Option<String>)
    ensures
        r is Some <==> uuid_parse_of(s@) is Some,
        r matches Some(u) ==> Some(u@) == uuid_parse_of(s@) && u@.len() == 36,
{
    uuid::Uuid::parse_str(s).ok().map(|u| u.to_string())
}

/// Relies on `uuid::Uuid::new_v4` and `Display`: whatever random UUID comes
/// back, its hyphenated rendering is 36 characters.
#[verifier::external_body]
pub fn generate_delivery_id() -> (r: String)
    ensures
        r@.len() == 36,
{
    uuid::Uuid::new_v4().to_string()
}

/// The delivery id a source supplies: a source-specific header parsed as a
/// UUID; absent or unparseable means none.
pub open spec fn delivery_id_of(source: Seq<char>, headers: Headers) -> Option<Seq<char>> {
    if source == "github"@ {
        match headers.spec_get("X-GitHub-Delivery"@) {
            Some(h) => uuid_parse_of(h),
            None => None,
        }
    } else if source == "gitlab"@ {
        match headers.spec_get("X-Gitlab-Event-UUID"@) {
            Some(h) => uuid_parse_of(h),
            None => None,
        }
    } else {
        None
    }
}

/// Extracts the source-supplied delivery id, in canonical UUID form.
pub fn extract_delivery_id(source: &str, headers: &Headers) -> (r: Option<String>)
    ensures
        view_opt_string(r) == delivery_id_of(source@, *headers),
        r matches Some(d) ==> d@.len() == 36,
{
    if str_eq(source, "github") {
        match headers.get("X-GitHub-Delivery") {
            Some(h) => parse_uuid(h),
            None => None,
        }
    } else if str_eq(source, "gitlab") {
        match headers.get("X-Gitlab-Event-UUID") {
            Some(h) => parse_uuid(h),
            None => None,
        }
    } else {
        None
    }
}

/// The event type a delivery carries: GitHub's event header; GitLab's event
/// header falling back to the payload's `object_kind`; for other sources a
/// list of candidate payload fields, with a source-specific default.
pub open spec fn event_type_of(source: Seq<char>, payload: JsonValue, headers: Headers) -> Seq<
    char,
> {
    if source == "github"@ {
        match headers.spec_get("X-GitHub-Event"@) {
            Some(h) => h,
            None => "unknown"@,
        }
    } else if source == "gitlab"@ {
        match headers.spec_get("X-Gitlab-Event"@) {
            Some(h) => h,
            None => match str_at(payload, "object_kind"@) {
                Some(k) => k,
                None => "unknown"@,
            },
        }
    } else if source == "auth0"@ {
        match str_at(payload, "type"@) {
            Some(t) => t,
            None => match str_at(payload, "event"@) {
                Some(t) => t,
                None => "unknown"@,
            },
        }
    } else {
        match str_at(payload, "type"@) {
            Some(t) => t,
            None => match str_at(payload, "event"@) {
                Some(t) => t,
                None => match str_at(payload, "event_type"@) {
                    Some(t) => t,
                    None => "webhook"@,
                },
            },
        }
    }
}

/// Extracts the event type by the source's conventions.
pub fn extract_event_type(source: &str, payload: &JsonValue, headers: &Headers) -> (r: String)
    ensures
        r@ == event_type_of(source@, *payload, *headers),
{
    if str_eq(source, "github") {
        match headers.get("X-GitHub-Event") {
            Some(h) => h.to_owned(),
            None => "unknown".to_owned(),
        }
    } else if str_eq(source, "gitlab") {
        match headers.get("X-Gitlab-Event") {
            Some(h) => h.to_owned(),
            None => match get_payload_str(payload, "object_kind") {
                Some(k) => k.to_owned(),
                None => "unknown".to_owned(),
            },
        }
    } else if str_eq(source, "auth0") {
        match get_payload_str(payload, "type") {
            Some(t) => t.to_owned(),
            None => match get_payload_str(payload, "event") {
                Some(t) => t.to_owned(),
                None => "unknown".to_owned(),
            },
        }
    } else {
        match get_payload_str(payload, "type") {
            Some(t) => t.to_owned(),
            None => match get_payload_str(payload, "event") {
                Some(t) => t.to_owned(),
                None => match get_payload_str(payload, "event_type") {
                    Some(t) => t.to_owned(),
                    None => "webhook".to_owned(),
                },
            },
        }
    }
}

fn get_payload_str<'a>(v: &'a JsonValue, k: &str) -> (r: Option<&'a str>)
    ensures
        match r {
            Some(s) => str_at(*v, k@) == Some(s@),
            None => str_at(*v, k@) is None,
        },
{
    match v.get(k) {
        Some(m) => m.as_str(),
        None => None,
    }
}

fn get_payload_str2<'a>(v: &'a JsonValue, k1: &str, k2: &str) -> (r: Option<&'a str>)
    ensures
        match r {
            Some(s) => str_at2(*v, k1@, k2@) == Some(s@),
            None => str_at2(*v, k1@, k2@) is None,
        },
{
    match v.get(k1) {
        Some(m) => get_payload_str(m, k2),
        None => None,
    }
}

/// The action member of a payload, source-agnostic: `action`, falling back
/// to `event_action`.
pub open spec fn action_of(payload: JsonValue) -> Option<Seq<char>> {
    match str_at(payload, "action"@) {
        Some(a) => Some(a),
        None => str_at(payload, "event_action"@),
    }
}

/// Extracts the action member of a payload.
pub fn extract_action(source: &str, payload: &JsonValue) -> (r: Option<String>)
    ensures
        view_opt_string(r) == action_of(*payload),
{
    match get_payload_str(payload, "action") {
        Some(a) => Some(a.to_owned()),
        None => match get_payload_str(payload, "event_action") {
            Some(a) => Some(a.to_owned()),
            None => None,
        },
    }
}

/// The raw signature header a source supplies, if it has one.
pub open spec fn signature_of(source: Seq<char>, headers: Headers) -> Option<Seq<char>> {
    if source == "github"@ {
        headers.spec_get("X-Hub-Signature-256"@)
    } else if source == "gitlab"@ {
        headers.spec_get("X-Gitlab-Token"@)
    } else {
        None
    }
}

/// Extracts the raw signature header by the source's conventions.
pub fn extract_signature(source: &str, headers: &Headers) -> (r: Option<String>)
    ensures
        view_opt_string(r) == signature_of(source@, *headers),
{
    if str_eq(source, "github") {
        match headers.get("X-Hub-Signature-256") {
            Some(h) => Some(h.to_owned()),
            None => None,
        }
    } else if str_eq(source, "gitlab") {
        match headers.get("X-Gitlab-Token") {
            Some(h) => Some(h.to_owned()),
            None => None,
        }
    } else {
        None
    }
}

/// The actor name a payload carries, by the source's preference order.
pub open spec fn actor_name_of(source: Seq<char>, p: JsonValue) -> Option<Seq<char>> {
    if source == "github"@ {
        match str_at2(p, "sender"@, "login"@) {
            Some(v) => Some(v),
            None => str_at2(p, "pusher"@, "name"@),
        }
    } else if source == "gitlab"@ {
        match str_at(p, "user_username"@) {
            Some(v) => Some(v),
            None => str_at2(p, "user"@, "username"@),
        }
    } else if source == "auth0"@ {
        match str_at2(p, "user"@, "name"@) {
            Some(v) => Some(v),
            None => str_at2(p, "user"@, "username"@),
        }
    } else {
        match str_at(p, "actor"@) {
            Some(v) => Some(v),
            None => match str_at(p, "user"@) {
                Some(v) => Some(v),
                None => str_at(p, "username"@),
            },
        }
    }
}

/// The actor email a payload carries, by the source's preference order.
pub open spec fn actor_email_of(source: Seq<char>, p: JsonValue) -> Option<Seq<char>> {
    if source == "github"@ {
        match str_at2(p, "sender"@, "email"@) {
            Some(v) => Some(v),
            None => str_at2(p, "pusher"@, "email"@),
        }
    } else if source == "gitlab"@ {
        match str_at(p, "user_email"@) {
            Some(v) => Some(v),
            None => str_at2(p, "user"@, "email"@),
        }
    } else if source == "auth0"@ {
        str_at2(p, "user"@, "email"@)
    } else {
        str_at(p, "email"@)
    }
}

/// The actor identifier a payload carries, by the source's preference
/// order; numeric ids are rendered in decimal.
pub open spec fn actor_id_of(source: Seq<char>, p: JsonValue) -> Option<Seq<char>> {
    if source == "github"@ {
        match str_at2(p, "sender"@, "login"@) {
            Some(v) => Some(v),
            None => match i64_at2(p, "sender"@, "id"@) {
                Some(v) => Some(spec_dec_i64(v as int)),
                None => str_at2(p, "pusher"@, "name"@),
            },
        }
    } else if source == "gitlab"@ {
        match i64_at(p, "user_id"@) {
            Some(v) => Some(spec_dec_i64(v as int)),
            None => match i64_at2(p, "user"@, "id"@) {
                Some(v) => Some(spec_dec_i64(v as int)),
                None => None,
            },
        }
    } else if source == "auth0"@ {
        match str_at2(p, "user"@, "user_id"@) {
            Some(v) => Some(v),
            None => str_at2(p, "user"@, "id"@),
        }
    } else {
        match str_at(p, "actor_id"@) {
            Some(v) => Some(v),
            None => str_at(p, "user_id"@),
        }
    }
}

fn get_payload_i64(v: &JsonValue, k: &str) -> (r: Option<i64>)
    ensures
        r == i64_at(*v, k@),
{
    match v.get(k) {
        Some(m) => m.as_i64(),
        None => None,
    }
}

fn get_payload_i64_2(v: &JsonValue, k1: &str, k2: &str) -> (r: Option<i64>)
    ensures
        r == i64_at2(*v, k1@, k2@),
{
    match v.get(k1) {
        Some(m) => get_payload_i64(m, k2),
        None => None,
    }
}

/// Extracts the best-effort actor identity (name, email, id) by the
/// source's conventions.
pub fn extract_actor_info(source: &str, payload: &JsonValue) -> (r: (
    Option<String>,
    Option<String>,
    Option<String>,
))
    ensures
        view_opt_string(r.0) == actor_name_of(source@, *payload),
        view_opt_string(r.1) == actor_email_of(source@, *payload),
        view_opt_string(r.2) == actor_id_of(source@, *payload),
{
    if str_eq(source, "github") {
        let name = match get_payload_str2(payload, "sender", "login") {
            Some(v) => Some(v.to_owned()),
            None => match get_payload_str2(payload, "pusher", "name") {
                Some(v) => Some(v.to_owned()),
                None => None,
            },
        };
        let email = match get_payload_str2(payload, "sender", "email") {
            Some(v) => Some(v.to_owned()),
            None => match get_payload_str2(payload, "pusher", "email") {
                Some(v) => Some(v.to_owned()),
                None => None,
            },
        };
        let id = match get_payload_str2(payload, "sender", "login") {
            Some(v) => Some(v.to_owned()),
            None => match get_payload_i64_2(payload, "sender", "id") {
                Some(v) => Some(i64_to_string(v)),
                None => match get_payload_str2(payload, "pusher", "name") {
                    Some(v) => Some(v.to_owned()),
                    None => None,
                },
            },
        };
        (name, email, id)
    } else if str_eq(source, "gitlab") {
        let name = match get_payload_str(payload, "user_username") {
            Some(v) => Some(v.to_owned()),
            None => match get_payload_str2(payload, "user", "username") {
                Some(v) => Some(v.to_owned()),
                None => None,
            },
        };
        let email = match get_payload_str(payload, "user_email") {
            Some(v) => Some(v.to_owned()),
            None => match get_payload_str2(payload, "user", "email") {
                Some(v) => Some(v.to_owned()),
                None => None,
            },
        };
        let id = match get_payload_i64(payload, "user_id") {
            Some(v) => Some(i64_to_string(v)),
            None => match get_payload_i64_2(payload, "user", "id") {
                Some(v) => Some(i64_to_string(v)),
                None => None,
            },
        };
        (name, email, id)
    } else if str_eq(source, "auth0") {
        let name = match get_payload_str2(payload, "user", "name") {
            Some(v) => Some(v.to_owned()),
            None => match get_payload_str2(payload, "user", "username") {
                Some(v) => Some(v.to_owned()),
                None => None,
            },
        };
        let email = match get_payload_str2(payload, "user", "email") {
            Some(v) => Some(v.to_owned()),
            None => None,
        };
        let id = match get_payload_str2(payload, "user", "user_id") {
            Some(v) => Some(v.to_owned()),
            None => match get_payload_str2(payload, "user", "id") {
                Some(v) => Some(v.to_owned()),
                None => None,
            },
        };
        (name, email, id)
    } else {
        let name = match get_payload_str(payload, "actor") {
            Some(v) => Some(v.to_owned()),
            None => match get_payload_str(payload, "user") {
                Some(v) => Some(v.to_owned()),
                None => match get_payload_str(payload, "username") {
                    Some(v) => Some(v.to_owned()),
                    None => None,
                },
            },
        };
        let email = match get_payload_str(payload, "email") {
            Some(v) => Some(v.to_owned()),
            None => None,
        };
        let id = match get_payload_str(payload, "actor_id") {
            Some(v) => Some(v.to_owned()),
            None => match get_payload_str(payload, "user_id") {
                Some(v) => Some(v.to_owned()),
                None => None,
            },
        };
        (name, email, id)
    }
}

} // verus!
