//! Canonical text rendering of a payload, the haystack of the dashboard's
//! free-text search.
//!
//! The rendering is JSON-shaped: `null`, `true`/`false`, decimal integers,
//! `#` for numbers kept only structurally, string contents between double
//! quotes (verbatim, with no escaping), `[...]` and `{...}` with `,` and `:`
//! separators. Free-text search matches case-insensitively against this
//! text.

use vstd::prelude::*;
use vstd::string::StringExecFns;

use crate::json::JsonValue;
use crate::strutil::i64_to_string;
use crate::strutil::spec_dec_i64;

verus! {

/// The canonical search text of a payload value.
pub open spec fn payload_text(v: JsonValue) -> Seq<char>
    decreases v,
{
    match v {
        JsonValue::Null => "null"@,
        JsonValue::Bool(b) => if b {
            "true"@
        } else {
            "false"@
        },
        JsonValue::Int(i) => spec_dec_i64(i as int),
        JsonValue::NonInt => "#"@,
        JsonValue::Str(s) => seq!['"'] + s@ + seq!['"'],
        JsonValue::Arr(items) => seq!['['] + list_text(items@) + seq![']'],
        JsonValue::Obj(members) => seq!['{'] + members_text(members@) + seq!['}'],
    }
}

/// Elements after the first, each with a leading comma.
pub open spec fn rest_text(items: Seq<JsonValue>) -> Seq<char>
    decreases items,
{
    if items.len() == 0 {
        Seq::empty()
    } else {
        seq![','] + payload_text(items[0]) + rest_text(items.skip(1))
    }
}

/// Comma-separated element renderings.
pub open spec fn list_text(items: Seq<JsonValue>) -> Seq<char>
    decreases items,
{
    if items.len() == 0 {
        Seq::empty()
    } else {
        payload_text(items[0]) + rest_text(items.skip(1))
    }
}

/// One `"key":value` member rendering.
pub open spec fn member_text(m: (String, JsonValue)) -> Seq<char>
    decreases m,
{
    seq!['"'] + m.0@ + seq!['"', ':'] + payload_text(m.1)
}

/// Members after the first, each with a leading comma.
pub open spec fn members_rest_text(ms: Seq<(String, JsonValue)>) -> Seq<char>
    decreases ms,
{
    if ms.len() == 0 {
        Seq::empty()
    } else {
        seq![','] + member_text(ms[0]) + members_rest_text(ms.skip(1))
    }
}

/// Comma-separated member renderings.
pub open spec fn members_text(ms: Seq<(String, JsonValue)>) -> Seq<char>
    decreases ms,
{
    if ms.len() == 0 {
        Seq::empty()
    } else {
        member_text(ms[0]) + members_rest_text(ms.skip(1))
    }
}

/// Renders a payload to its canonical search text.
pub fn render_payload(v: &JsonValue) -> (s: String)
    ensures
        s@ == payload_text(*v),
    decreases *v,
{
    match v {
        JsonValue::Null => "null".to_owned(),
        JsonValue::Bool(b) => if *b {
            "true".to_owned()
        } else {
            "false".to_owned()
        },
        JsonValue::Int(i) => i64_to_string(*i),
        JsonValue::NonInt => "#".to_owned(),
        JsonValue::Str(st) => {
            proof {
                reveal_strlit("\"");
            }
            let mut s: String = String::from_str("\"");
            s.append(st.as_str());
            s.append("\"");
            assert(s@ =~= payload_text(*v));
            s
        },
        JsonValue::Arr(items) => {
            proof {
                reveal_strlit("[");
                reveal_strlit("]");
                reveal_strlit(",");
            }
            let mut s: String = String::from_str("[");
            let n = items.len();
            if n > 0 {
                let first = render_payload(&items[0]);
                s.append(first.as_str());
                for idx in 1..n
                    invariant
                        *v == JsonValue::Arr(*items),
                        n == items@.len(),
                        "["@ =~= seq!['['],
                        ","@ =~= seq![','],
                        s@ + rest_text(items@.skip(idx as int)) =~= seq!['['] + list_text(
                            items@,
                        ),
                    decreases n - idx,
                {
                    proof {
                        assert(items@.skip(idx as int)[0] == items@[idx as int]);
                        assert(items@.skip(idx as int).skip(1) =~= items@.skip(idx + 1));
                        assert(rest_text(items@.skip(idx as int)) =~= seq![','] + payload_text(
                            items@[idx as int],
                        ) + rest_text(items@.skip(idx + 1)));
                        assert(decreases_to!(*v => v->Arr_0));
                        assert(decreases_to!(v->Arr_0 => v->Arr_0@));
                        assert(decreases_to!(v->Arr_0@ => v->Arr_0@[idx as int]));
                        assert(v->Arr_0@[idx as int] == items@[idx as int]);
                    }
                    s.append(",");
                    let piece = render_payload(&items[idx]);
                    s.append(piece.as_str());
                    assert(s@ + rest_text(items@.skip(idx + 1)) =~= seq!['['] + list_text(
                        items@,
                    ));
                }
                assert(rest_text(items@.skip(n as int)) =~= Seq::empty());
            }
            s.append("]");
            assert(s@ =~= payload_text(*v));
            s
        },
        JsonValue::Obj(members) => {
            proof {
                reveal_strlit("{");
                reveal_strlit("}");
                reveal_strlit(",");
                reveal_strlit("\"");
                reveal_strlit("\":");
            }
            let mut s: String = String::from_str("{");
            let n = members.len();
            if n > 0 {
                s.append("\"");
                s.append(members[0].0.as_str());
                s.append("\":");
                let first = render_payload(&members[0].1);
                s.append(first.as_str());
                assert(s@ =~= seq!['{'] + member_text(members@[0]));
                for idx in 1..n
                    invariant
                        *v == JsonValue::Obj(*members),
                        n == members@.len(),
                        "{"@ =~= seq!['{'],
                        ","@ =~= seq![','],
                        "\""@ =~= seq!['"'],
                        "\":"@ =~= seq!['"', ':'],
                        s@ + members_rest_text(members@.skip(idx as int)) =~= seq!['{']
                            + members_text(members@),
                    decreases n - idx,
                {
                    proof {
                        assert(members@.skip(idx as int)[0] == members@[idx as int]);
                        assert(members@.skip(idx as int).skip(1) =~= members@.skip(idx + 1));
                        assert(members_rest_text(members@.skip(idx as int)) =~= seq![',']
                            + member_text(members@[idx as int]) + members_rest_text(
                            members@.skip(idx + 1),
                        ));
                        assert(decreases_to!(*v => v->Obj_0));
                        assert(decreases_to!(v->Obj_0 => v->Obj_0@));
                        assert(decreases_to!(v->Obj_0@ => v->Obj_0@[idx as int]));
                        assert(decreases_to!(v->Obj_0@[idx as int] => v->Obj_0@[idx as int].1));
                        assert(v->Obj_0@[idx as int].1 == members@[idx as int].1);
                    }
                    s.append(",");
                    s.append("\"");
                    s.append(members[idx].0.as_str());
                    s.append("\":");
                    let piece = render_payload(&members[idx].1);
                    s.append(piece.as_str());
                    assert(s@ + members_rest_text(members@.skip(idx + 1)) =~= seq!['{']
                        + members_text(members@));
                }
                assert(members_rest_text(members@.skip(n as int)) =~= Seq::empty());
            }
            s.append("}");
            assert(s@ =~= payload_text(*v));
            s
        },
    }
}

} // verus!
