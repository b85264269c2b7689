//! JSON bodies.

use vstd::prelude::*;

use crate::json;
use crate::json::{Json, JsonValue};
use crate::keys::KeySet;
use crate::sanitize::Sanitizer;
use crate::text;

verus! {

/// What stands in the place of a redacted value.
pub open spec fn redaction() -> Seq<char> {
    "[REDACTED]"@
}

/// The fields of a JSON body whose values are redacted.
pub open spec fn is_denied_field(lower: Seq<char>) -> bool {
    ||| lower == "password"@
    ||| lower == "token"@
    ||| lower == "authorization"@
    ||| lower == "email"@
    ||| lower == "phone"@
    ||| lower == "ssn"@
    ||| lower == "secret"@
    ||| lower == "session"@
    ||| lower == "cookie"@
    ||| lower == "api_key"@
}

fn denied_field(lower: &str) -> (r: bool)
    ensures
        r == is_denied_field(lower@),
{
    text::same_text(lower, "password") || text::same_text(lower, "token") || text::same_text(
        lower,
        "authorization",
    ) || text::same_text(lower, "email") || text::same_text(lower, "phone") || text::same_text(
        lower,
        "ssn",
    ) || text::same_text(lower, "secret") || text::same_text(lower, "session") || text::same_text(
        lower,
        "cookie",
    ) || text::same_text(lower, "api_key")
}

/// Whether a field is left alone with all that is in it.
pub open spec fn is_exempt_field(key: Seq<char>, exempt: Set<Seq<char>>) -> bool {
    exempt.contains(text::lowercase(key))
}

/// Whether the value of a field has to go: the key is on the list and not exempt.
pub open spec fn is_secret_field(key: Seq<char>, exempt: Set<Seq<char>>) -> bool {
    is_denied_field(text::lowercase(key)) && !is_exempt_field(key, exempt)
}

/// A JSON value as it is sent: at every depth the values of secret fields are
/// replaced, and what stands in an exempt field is not looked into.
pub open spec fn redacted(t: Json, exempt: Set<Seq<char>>) -> Json
    decreases t,
{
    match t {
        Json::Array(items) => Json::Array(
            Seq::new(
                items.len(),
                |i: int|
                    if 0 <= i < items.len() {
                        redacted(items[i], exempt)
                    } else {
                        Json::Null
                    },
            ),
        ),
        Json::Object(m) => Json::Object(
            Map::new(
                |k: Seq<char>| m.contains_key(k),
                |k: Seq<char>|
                    if !m.contains_key(k) {
                        Json::Null
                    } else if is_exempt_field(k, exempt) {
                        m[k]
                    } else if is_secret_field(k, exempt) {
                        Json::Text(redaction())
                    } else {
                        redacted(m[k], exempt)
                    },
            ),
        ),
        _ => t,
    }
}

/// The value of a field as it is sent.
pub open spec fn redacted_field(key: Seq<char>, value: Json, exempt: Set<Seq<char>>) -> Json {
    if is_exempt_field(key, exempt) {
        value
    } else if is_secret_field(key, exempt) {
        Json::Text(redaction())
    } else {
        redacted(value, exempt)
    }
}

/// Redacting the entries of an object one by one redacts the object.
proof fn redacted_entries(
    before: Seq<(Seq<char>, Json)>,
    after: Seq<(Seq<char>, Json)>,
    exempt: Set<Seq<char>>,
)
    requires
        before.len() == after.len(),
        forall|i: int|
            0 <= i < before.len() ==> (#[trigger] after[i]).0 == before[i].0 && after[i].1
                == redacted_field(before[i].0, before[i].1, exempt),
    ensures
        Json::Object(json::last_wins(after)) == redacted(
            Json::Object(json::last_wins(before)),
            exempt,
        ),
    decreases before.len(),
{
    let whole = redacted(Json::Object(json::last_wins(before)), exempt);
    if before.len() > 0 {
        let n = before.len() - 1;
        assert forall|i: int| 0 <= i < n implies (#[trigger] after.drop_last()[i]).0
            == before.drop_last()[i].0 && after.drop_last()[i].1 == redacted_field(
            before.drop_last()[i].0,
            before.drop_last()[i].1,
            exempt,
        ) by {
            assert(after[i].0 == before[i].0);
        }
        redacted_entries(before.drop_last(), after.drop_last(), exempt);
        assert(after[n].0 == before[n].0);
    }
    assert(json::last_wins(after) =~= whole->Object_0);
}

/// Redacts sensitive fields of JSON bodies.
pub struct BodySanitizer {
    passthrough_keys: KeySet,
}

impl Sanitizer for BodySanitizer {

}

impl BodySanitizer {
    /// The keys that are left alone.
    pub closed spec fn exempt(&self) -> Set<Seq<char>> {
        self.passthrough_keys@
    }

    /// A sanitizer that leaves these keys alone, which are in lower case.
    pub fn new(passthrough_keys: KeySet) -> (r: Self)
        ensures
            r.exempt() == passthrough_keys@,
    {
        BodySanitizer { passthrough_keys }
    }

    /// The value with the values of secret fields replaced, at every depth.
    pub fn redact(&self, value: JsonValue) -> (r: JsonValue)
        ensures
            r.tree() == redacted(value.tree(), self.exempt()),
        decreases value,
    {
        match value {
            JsonValue::Array(items) => {
                let ghost held = json::trees(items@);
                let mut out: Vec<JsonValue> = Vec::new();
                for item in it: items
                    invariant
                        it.seq() == items@,
                        held == json::trees(items@),
                        value == JsonValue::Array(items),
                        out@.len() == it.index(),
                        forall|j: int|
                            0 <= j < it.index() ==> (#[trigger] out@[j]).tree() == redacted(
                                held[j],
                                self.exempt(),
                            ),
                {
                    assert(decreases_to!(value => value->Array_0));
                    assert(decreases_to!(items@ => items@[it.index()]));
                    out.push(self.redact(item));
                }
                assert(json::trees(out@) =~= redacted(
                    Json::Array(held),
                    self.exempt(),
                )->Array_0);
                JsonValue::Array(out)
            },
            JsonValue::Object(entries) => {
                let ghost held = json::pairs(entries@);
                let mut out: Vec<(String, JsonValue)> = Vec::new();
                for entry in it: entries
                    invariant
                        it.seq() == entries@,
                        held == json::pairs(entries@),
                        value == JsonValue::Object(entries),
                        out@.len() == it.index(),
                        forall|j: int|
                            0 <= j < it.index() ==> (#[trigger] out@[j]).0@ == held[j].0
                                && out@[j].1.tree() == redacted_field(
                                held[j].0,
                                held[j].1,
                                self.exempt(),
                            ),
                {
                    assert(decreases_to!(value => value->Object_0));
                    assert(decreases_to!(entries@ => entries@[it.index()]));
                    let (key, item) = entry;
                    let lower = key.as_str().to_lowercase();
                    let item = if self.passthrough_keys.contains(lower.as_str()) {
                        item
                    } else if denied_field(lower.as_str()) {
                        JsonValue::Text("[REDACTED]".to_owned())
                    } else {
                        self.redact(item)
                    };
                    out.push((key, item));
                }
                proof {
                    redacted_entries(held, json::pairs(out@), self.exempt());
                }
                JsonValue::Object(out)
            },
            other => other,
        }
    }
}

/// Whether a content type says that the body is JSON.
pub open spec fn is_json_type(content_type: Option<Seq<char>>) -> bool {
    content_type matches Some(ct) && text::has_substring(ct, "application/json"@)
}

/// A body as it is sent: JSON is redacted and written anew, all else stays as it is.
pub open spec fn sanitized_body(
    body: Seq<char>,
    content_type: Option<Seq<char>>,
    exempt: Set<Seq<char>>,
) -> Seq<char> {
    if is_json_type(content_type) {
        match json::parsed_json(body) {
            Some(t) => json::json_text(redacted(t, exempt)),
            None => body,
        }
    } else {
        body
    }
}

/// Nothing secret is left: at every depth outside exempt fields, a field that is on
/// the list holds nothing but the redaction.
pub open spec fn is_clean(t: Json, exempt: Set<Seq<char>>) -> bool
    decreases t,
{
    match t {
        Json::Array(items) => forall|i: int|
            0 <= i < items.len() ==> is_clean(#[trigger] items[i], exempt),
        Json::Object(m) => forall|k: Seq<char>|
            #![trigger m[k]]
            m.contains_key(k) && !is_exempt_field(k, exempt) ==> if is_secret_field(k, exempt) {
                m[k] == Json::Text(redaction())
            } else {
                is_clean(m[k], exempt)
            },
        _ => true,
    }
}

/// What can be read out of a sanitized body that is JSON by its type: whatever is read
/// holds nothing secret, and where the body itself could be read and holds no number
/// with a fraction or an exponent, its redacted value is read.
pub open spec fn reads_back_clean(
    body: Seq<char>,
    content_type: Option<Seq<char>>,
    exempt: Set<Seq<char>>,
    clean: Seq<char>,
) -> bool {
    is_json_type(content_type) ==> {
        &&& json::parsed_json(clean) matches Some(t) ==> is_clean(t, exempt)
        &&& json::parsed_json(body) matches Some(t) ==> json::float_free(t) ==> json::parsed_json(
            clean,
        ) == Some(redacted(t, exempt))
    }
}

/// Redacting leaves nothing secret.
pub proof fn redacted_is_clean(t: Json, exempt: Set<Seq<char>>)
    ensures
        is_clean(redacted(t, exempt), exempt),
    decreases t,
{
    let r = redacted(t, exempt);
    match t {
        Json::Array(items) => {
            assert forall|i: int| 0 <= i < items.len() implies is_clean(
                #[trigger] r->Array_0[i],
                exempt,
            ) by {
                redacted_is_clean(items[i], exempt);
            }
        },
        Json::Object(m) => {
            assert forall|k: Seq<char>|
                #![trigger r->Object_0[k]]
                m.contains_key(k) && !is_exempt_field(k, exempt) && !is_secret_field(
                    k,
                    exempt,
                ) implies is_clean(r->Object_0[k], exempt) by {
                redacted_is_clean(m[k], exempt);
            }
        },
        _ => {},
    }
}

/// What holds nothing secret is sent as it is.
pub proof fn clean_is_unchanged(t: Json, exempt: Set<Seq<char>>)
    requires
        is_clean(t, exempt),
    ensures
        redacted(t, exempt) == t,
    decreases t,
{
    let r = redacted(t, exempt);
    match t {
        Json::Array(items) => {
            assert forall|i: int| 0 <= i < items.len() implies r->Array_0[i] == items[i] by {
                clean_is_unchanged(items[i], exempt);
            }
            assert(r->Array_0 =~= items);
        },
        Json::Object(m) => {
            assert forall|k: Seq<char>| m.contains_key(k) implies r->Object_0[k] == m[k] by {
                if !is_exempt_field(k, exempt) && !is_secret_field(k, exempt) {
                    clean_is_unchanged(m[k], exempt);
                }
            }
            assert(r->Object_0 =~= m);
        },
        _ => {},
    }
}

/// Redacting twice is the same as redacting once.
pub proof fn redacting_is_idempotent(t: Json, exempt: Set<Seq<char>>)
    ensures
        redacted(redacted(t, exempt), exempt) == redacted(t, exempt),
{
    redacted_is_clean(t, exempt);
    clean_is_unchanged(redacted(t, exempt), exempt);
}

/// An exempt field of an object keeps its value, whatever is in it.
pub proof fn exempt_field_is_kept(
    fields: Map<Seq<char>, Json>,
    key: Seq<char>,
    exempt: Set<Seq<char>>,
)
    requires
        fields.contains_key(key),
        is_exempt_field(key, exempt),
    ensures
        redacted(Json::Object(fields), exempt)->Object_0.contains_key(key),
        redacted(Json::Object(fields), exempt)->Object_0[key] == fields[key],
{
}

/// The documented fields of an object are redacted, whatever the case of their keys and
/// whatever is in them.
pub proof fn documented_fields_are_redacted(
    fields: Map<Seq<char>, Json>,
    key: Seq<char>,
    exempt: Set<Seq<char>>,
)
    requires
        fields.contains_key(key),
        ({
            let lower = text::lowercase(key);
            ||| lower == "password"@
            ||| lower == "token"@
            ||| lower == "authorization"@
            ||| lower == "email"@
            ||| lower == "phone"@
            ||| lower == "ssn"@
            ||| lower == "secret"@
            ||| lower == "session"@
            ||| lower == "cookie"@
            ||| lower == "api_key"@
        }),
        !exempt.contains(text::lowercase(key)),
    ensures
        redacted(Json::Object(fields), exempt) matches Json::Object(sent) && sent.contains_key(key)
            && sent[key] == Json::Text("[REDACTED]"@),
{
}

/// A field whose key is none of the documented ones, and which is not exempt, keeps its
/// key, and its value is redacted in turn.
pub proof fn other_fields_are_looked_into(
    fields: Map<Seq<char>, Json>,
    key: Seq<char>,
    exempt: Set<Seq<char>>,
)
    requires
        fields.contains_key(key),
        ({
            let lower = text::lowercase(key);
            &&& lower != "password"@
            &&& lower != "token"@
            &&& lower != "authorization"@
            &&& lower != "email"@
            &&& lower != "phone"@
            &&& lower != "ssn"@
            &&& lower != "secret"@
            &&& lower != "session"@
            &&& lower != "cookie"@
            &&& lower != "api_key"@
        }),
        !exempt.contains(text::lowercase(key)),
    ensures
        redacted(Json::Object(fields), exempt) matches Json::Object(sent) && sent.contains_key(key)
            && sent[key] == redacted(fields[key], exempt),
{
}

/// A field whose key is exempt in any case of its letters keeps its value, and redacting
/// adds no field and takes none away.
pub proof fn objects_keep_their_keys(fields: Map<Seq<char>, Json>, exempt: Set<Seq<char>>)
    ensures
        redacted(Json::Object(fields), exempt) matches Json::Object(sent) && sent.dom()
            == fields.dom() && forall|key: Seq<char>|
            fields.contains_key(key) && exempt.contains(text::lowercase(key))
                ==> #[trigger] sent[key] == fields[key],
{
    let sent = redacted(Json::Object(fields), exempt)->Object_0;
    assert(sent.dom() =~= fields.dom());
}

/// Arrays keep their length and their order, and each item is redacted in turn.
pub proof fn arrays_are_redacted_item_by_item(items: Seq<Json>, exempt: Set<Seq<char>>)
    ensures
        redacted(Json::Array(items), exempt) matches Json::Array(sent) && sent.len() == items.len()
            && forall|i: int|
            0 <= i < items.len() ==> #[trigger] sent[i] == redacted(items[i], exempt),
{
    let whole = Json::Array(items);
    assert(whole->Array_0 == items);
}

/// What is neither an array nor an object has no fields and stays as it is.
pub proof fn plain_values_are_unchanged(t: Json, exempt: Set<Seq<char>>)
    requires
        t !is Array,
        t !is Object,
    ensures
        redacted(t, exempt) == t,
{
}

/// A body that can be read as JSON is redacted where its content type has
/// `application/json` anywhere in it.
pub proof fn json_bodies_are_redacted(
    body: Seq<char>,
    before: Seq<char>,
    after: Seq<char>,
    exempt: Set<Seq<char>>,
)
    requires
        json::parsed_json(body) is Some,
    ensures
        sanitized_body(body, Some(before + "application/json"@ + after), exempt)
            == json::json_text(redacted(json::parsed_json(body)->Some_0, exempt)),
{
    text::substring_stands_between(before + "application/json"@ + after, "application/json"@);
}

/// A body stays as it is where it has no content type, where the content type does not
/// have `application/json` in it, and where it cannot be read as JSON.
pub proof fn other_bodies_are_unchanged(
    body: Seq<char>,
    content_type: Option<Seq<char>>,
    exempt: Set<Seq<char>>,
)
    requires
        json::parsed_json(body) is None || content_type is None || (content_type matches Some(ct)
            && forall|before: Seq<char>, after: Seq<char>|
            ct != #[trigger] (before + "application/json"@ + after)),
    ensures
        sanitized_body(body, content_type, exempt) == body,
{
    if let Some(ct) = content_type {
        text::substring_stands_between(ct, "application/json"@);
    }
}

/// Numbers do not decide whether a value is clean.
proof fn clean_but_for_floats(a: Json, b: Json, exempt: Set<Seq<char>>)
    requires
        is_clean(a, exempt),
        json::same_but_floats(a, b),
    ensures
        is_clean(b, exempt),
    decreases a,
{
    match a {
        Json::Array(items) => {
            assert forall|i: int| 0 <= i < items.len() implies is_clean(
                #[trigger] b->Array_0[i],
                exempt,
            ) by {
                clean_but_for_floats(items[i], b->Array_0[i], exempt);
            }
        },
        Json::Object(m) => {
            let n = b->Object_0;
            assert forall|k: Seq<char>|
                #![trigger n[k]]
                n.contains_key(k) && !is_exempt_field(k, exempt) implies if is_secret_field(
                k,
                exempt,
            ) {
                n[k] == Json::Text(redaction())
            } else {
                is_clean(n[k], exempt)
            } by {
                assert(m.contains_key(k));
                assert(json::same_but_floats(m[k], n[k]));
                if !is_secret_field(k, exempt) {
                    clean_but_for_floats(m[k], n[k], exempt);
                }
            }
        },
        _ => {},
    }
}

/// Redacting neither adds such numbers nor makes a value deeper.
proof fn redacting_adds_nothing(t: Json, exempt: Set<Seq<char>>, levels: nat)
    requires
        json::nested_at_most(t, levels),
    ensures
        json::nested_at_most(redacted(t, exempt), levels),
        json::float_free(t) ==> json::float_free(redacted(t, exempt)),
    decreases t,
{
    let r = redacted(t, exempt);
    match t {
        Json::Array(items) => {
            let below = (levels - 1) as nat;
            assert forall|i: int| 0 <= i < items.len() implies json::nested_at_most(
                #[trigger] r->Array_0[i],
                below,
            ) && (json::float_free(t) ==> json::float_free(r->Array_0[i])) by {
                redacting_adds_nothing(items[i], exempt, below);
            }
        },
        Json::Object(m) => {
            let below = (levels - 1) as nat;
            assert forall|k: Seq<char>|
                #![trigger r->Object_0[k]]
                m.contains_key(k) implies json::nested_at_most(r->Object_0[k], below) && (
            json::float_free(t) ==> json::float_free(r->Object_0[k])) by {
                redacting_adds_nothing(m[k], exempt, below);
            }
        },
        _ => {},
    }
}

impl BodySanitizer {
    /// The body with the values of secret fields replaced, where the content type says
    /// that it is JSON and it can be read as JSON; else the body itself. Whatever JSON
    /// can be read out of the result of a JSON body holds nothing secret.
    pub fn sanitize(&self, body: &str, content_type: Option<&str>) -> (r: String)
        ensures
            r@ == sanitized_body(body@, text::optional_str(content_type), self.exempt()),
            reads_back_clean(body@, text::optional_str(content_type), self.exempt(), r@),
    {
        let is_json = match content_type {
            Some(ct) => text::contains_text(ct, "application/json"),
            None => false,
        };
        if !is_json {
            return body.to_owned();
        }
        match json::parse_value(body) {
            Ok(value) => {
                let ghost before = json::value_tree(value);
                let after = self.redact(JsonValue::from_value(value)).into_value();
                proof {
                    redacted_is_clean(before, self.exempt());
                    redacting_adds_nothing(before, self.exempt(), json::NESTING_LIMIT as nat);
                }
                match json::value_text(&after) {
                    Ok(clean) => {
                        proof {
                            if let Some(t) = json::parsed_json(clean@) {
                                clean_but_for_floats(
                                    redacted(before, self.exempt()),
                                    t,
                                    self.exempt(),
                                );
                            }
                        }
                        clean
                    },
                    Err(_) => body.to_owned(),
                }
            },
            Err(_) => body.to_owned(),
        }
    }
}

/// The case of a field's key does not count.
pub proof fn field_case_does_not_count(key: Seq<char>, exempt: Set<Seq<char>>)
    requires
        vstd::utf8::is_ascii_chars(key),
    ensures
        is_secret_field(text::ascii_uppercase(key), exempt) == is_secret_field(key, exempt),
        is_exempt_field(text::ascii_uppercase(key), exempt) == is_exempt_field(key, exempt),
{
    text::lowercase_ignores_case(key);
}

/// Two JSON values are the same but for the values of secret fields.
pub open spec fn same_but_secret_fields(a: Json, b: Json, exempt: Set<Seq<char>>) -> bool
    decreases a,
{
    match a {
        Json::Array(items) => b is Array && b->Array_0.len() == items.len() && forall|i: int|
            0 <= i < items.len() ==> same_but_secret_fields(
                #[trigger] items[i],
                b->Array_0[i],
                exempt,
            ),
        Json::Object(m) => b is Object && b->Object_0.dom() == m.dom() && forall|k: Seq<char>|
            #![trigger m[k]]
            m.contains_key(k) && !is_secret_field(k, exempt) ==> if is_exempt_field(k, exempt) {
                b->Object_0[k] == m[k]
            } else {
                same_but_secret_fields(m[k], b->Object_0[k], exempt)
            },
        _ => a == b,
    }
}

/// The values of secret fields do not count: values that differ in nothing else are sent
/// as the same value.
pub proof fn secret_fields_do_not_count(a: Json, b: Json, exempt: Set<Seq<char>>)
    requires
        same_but_secret_fields(a, b, exempt),
    ensures
        redacted(a, exempt) == redacted(b, exempt),
    decreases a,
{
    let ra = redacted(a, exempt);
    let rb = redacted(b, exempt);
    match a {
        Json::Array(items) => {
            assert forall|i: int| 0 <= i < items.len() implies ra->Array_0[i]
                == rb->Array_0[i] by {
                secret_fields_do_not_count(items[i], b->Array_0[i], exempt);
            }
            assert(ra->Array_0 =~= rb->Array_0);
        },
        Json::Object(m) => {
            let n = b->Object_0;
            assert forall|k: Seq<char>| m.contains_key(k) implies ra->Object_0[k]
                == rb->Object_0[k] by {
                assert(n.contains_key(k));
                if !is_secret_field(k, exempt) && !is_exempt_field(k, exempt) {
                    assert(same_but_secret_fields(m[k], n[k], exempt));
                    secret_fields_do_not_count(m[k], n[k], exempt);
                }
            }
            assert(ra->Object_0 =~= rb->Object_0);
        },
        _ => {},
    }
}

} // verus!
