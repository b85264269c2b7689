//! Records, outcomes and statistics.

use std::collections::HashMap;

use bytes::Bytes;
use indexmap::IndexMap;
use reqwest::header::{HeaderMap, HeaderValue};
use vstd::prelude::*;

use crate::counts;
use crate::counts::CategoryCounts;
use crate::headers;
use crate::headers::HeaderEntry;
use crate::json;
use crate::json::{Json, JsonValue};
use crate::text;

verus! {

/// `bytes::Bytes`, a body that is ready to be sent.
#[verifier::external_type_specification]
#[verifier::external_body]
pub struct ExBytes(bytes::Bytes);

/// The bytes of a body.
pub uninterp spec fn body_bytes(b: Bytes) -> Seq<u8>;

/// `Bytes::from` on a vector: the same bytes.
#[verifier::external_body]
pub(crate) fn bytes_from(v: Vec<u8>) -> (r: Bytes)
    ensures
        body_bytes(r) == v@,
{
    Bytes::from(v)
}

/// `Bytes::clone`: the same bytes.
#[verifier::external_body]
fn copy_bytes(b: &Bytes) -> (r: Bytes)
    ensures
        body_bytes(r) == body_bytes(*b),
{
    b.clone()
}

/// The bytes of a body, if there is one.
pub open spec fn optional_bytes(body: Option<Bytes>) -> Option<Seq<u8>> {
    match body {
        Some(b) => Some(body_bytes(b)),
        None => None,
    }
}

/// The entries of a header list, if there is one.
pub open spec fn optional_entries(headers: Option<IndexMap<String, Vec<String>>>) -> Option<
    Seq<HeaderEntry>,
> {
    match headers {
        Some(h) => Some(headers::header_entries(h)),
        None => None,
    }
}

/// A recorded request.
#[derive(Debug)]
pub struct ReplayRecord {
    pub timestamp: Option<String>,
    pub method: String,
    pub path: String,
    pub query: Option<String>,
    pub headers: Option<IndexMap<String, Vec<String>>>,
    pub body: Option<String>,
    pub body_encoding: Option<String>,
    pub content_type: Option<String>,
    pub status: Option<u16>,
}

impl Clone for ReplayRecord {
    fn clone(&self) -> (r: Self)
        ensures
            text::optional_text(r.timestamp) == text::optional_text(self.timestamp),
            r.method@ == self.method@,
            r.path@ == self.path@,
            text::optional_text(r.query) == text::optional_text(self.query),
            optional_entries(r.headers) == optional_entries(self.headers),
            r.headers is Some <==> self.headers is Some,
            self.headers matches Some(h) ==> headers::header_entries(r.headers->Some_0)
                == headers::header_entries(h),
            text::optional_text(r.body) == text::optional_text(self.body),
            text::optional_text(r.body_encoding) == text::optional_text(self.body_encoding),
            text::optional_text(r.content_type) == text::optional_text(self.content_type),
            r.status == self.status,
    {
        ReplayRecord {
            timestamp: text::copy_text(&self.timestamp),
            method: self.method.clone(),
            path: self.path.clone(),
            query: text::copy_text(&self.query),
            headers: match &self.headers {
                Some(h) => Some(headers::copy_header_list(h)),
                None => None,
            },
            body: text::copy_text(&self.body),
            body_encoding: text::copy_text(&self.body_encoding),
            content_type: text::copy_text(&self.content_type),
            status: self.status,
        }
    }
}

/// A request that is ready to be sent.
#[derive(Debug)]
pub struct SanitizedReplayRecord {
    pub method: String,
    pub url: String,
    pub headers: HeaderMap<HeaderValue>,
    pub body: Option<Bytes>,
    pub content_type: Option<String>,
}

impl Clone for SanitizedReplayRecord {
    fn clone(&self) -> (r: Self)
        ensures
            r.method@ == self.method@,
            r.url@ == self.url@,
            headers::header_contents(r.headers) == headers::header_contents(self.headers),
            optional_bytes(r.body) == optional_bytes(self.body),
            r.body is Some <==> self.body is Some,
            self.body matches Some(b) ==> body_bytes(r.body->Some_0) == body_bytes(b),
            text::optional_text(r.content_type) == text::optional_text(self.content_type),
    {
        SanitizedReplayRecord {
            method: self.method.clone(),
            url: self.url.clone(),
            headers: headers::copy_header_map(&self.headers),
            body: match &self.body {
                Some(b) => Some(copy_bytes(b)),
                None => None,
            },
            content_type: text::copy_text(&self.content_type),
        }
    }
}

/// What came of a request.
#[derive(Debug, Clone)]
pub struct ReplayOutcome {
    pub status: Option<u16>,
    pub latency_us: u64,
    pub error: Option<String>,
    pub was_dry_run: bool,
}

/// The statistics of a run.
#[derive(Debug)]
pub struct AggregatedStats {
    pub total_lines: u64,
    pub parse_errors: u64,
    pub filtered_count: u64,
    pub attempted: u64,
    pub succeeded: u64,
    pub failed: u64,
    pub status_distribution: HashMap<u16, u64>,
    pub error_categories: CategoryCounts,
    pub p50_us: u64,
    pub p95_us: u64,
    pub p99_us: u64,
}

impl Clone for AggregatedStats {
    fn clone(&self) -> (r: Self)
        ensures
            r.total_lines == self.total_lines,
            r.parse_errors == self.parse_errors,
            r.filtered_count == self.filtered_count,
            r.attempted == self.attempted,
            r.succeeded == self.succeeded,
            r.failed == self.failed,
            r.status_distribution@ == self.status_distribution@,
            r.error_categories@ == self.error_categories@,
            counts::same_list(self.error_categories.listed(), r.error_categories.listed()),
            r.p50_us == self.p50_us,
            r.p95_us == self.p95_us,
            r.p99_us == self.p99_us,
    {
        AggregatedStats {
            total_lines: self.total_lines,
            parse_errors: self.parse_errors,
            filtered_count: self.filtered_count,
            attempted: self.attempted,
            succeeded: self.succeeded,
            failed: self.failed,
            status_distribution: self.status_distribution.clone(),
            error_categories: self.error_categories.clone(),
            p50_us: self.p50_us,
            p95_us: self.p95_us,
            p99_us: self.p99_us,
        }
    }
}

/// The texts among the items of an array, in their order.
pub open spec fn texts_among(items: Seq<Json>) -> Seq<Seq<char>>
    decreases items.len(),
{
    if items.len() == 0 {
        Seq::empty()
    } else {
        match items.last() {
            Json::Text(s) => texts_among(items.drop_last()).push(s),
            _ => texts_among(items.drop_last()),
        }
    }
}

/// The values of a header: a text is one value, an array gives its texts, anything
/// else is one value that reads as the JSON does.
pub open spec fn header_values(v: Json) -> Seq<Seq<char>> {
    match v {
        Json::Text(s) => seq![s],
        Json::Array(items) => texts_among(items),
        _ => seq![json::json_text(v)],
    }
}

/// The headers that the entries of a JSON object give: names in lower case, in the
/// order in which they first occur, with the values that they have last.
pub open spec fn headers_of(entries: Seq<(Seq<char>, Json)>) -> Seq<HeaderEntry>
    decreases entries.len(),
{
    if entries.len() == 0 {
        Seq::empty()
    } else {
        headers::put(
            headers_of(entries.drop_last()),
            text::lowercase(entries.last().0),
            header_values(entries.last().1),
        )
    }
}

/// The values of a header out of its JSON.
fn values_of(v: JsonValue) -> (r: Vec<String>)
    ensures
        text::texts(r@) == header_values(v.tree()),
{
    let mut out: Vec<String> = Vec::new();
    match v {
        JsonValue::Text(s) => {
            out.push(s);
            assert(text::texts(out@) =~= seq![s@]);
        },
        JsonValue::Array(items) => {
            let ghost held = json::trees(items@);
            assert(held.take(0) =~= Seq::<Json>::empty());
            for item in it: items
                invariant
                    it.seq() == items@,
                    held == json::trees(items@),
                    text::texts(out@) == texts_among(held.take(it.index())),
            {
                let ghost before = out@;
                proof {
                    let done = held.take(it.index() + 1);
                    assert(done.drop_last() =~= held.take(it.index()));
                    assert(done.last() == item.tree());
                }
                match item {
                    JsonValue::Text(s) => {
                        out.push(s);
                        assert(text::texts(out@) =~= text::texts(before).push(s@));
                    },
                    _ => {},
                }
            }
            assert(held.take(held.len() as int) =~= held);
        },
        other => {
            let value = other.into_value();
            if let Ok(t) = json::value_text(&value) {
                out.push(t);
                assert(text::texts(out@) =~= seq![t@]);
            }
        },
    }
    out
}

/// The headers of a record out of the entries of its JSON object, if it has one.
pub fn deserialize_headers(raw: Option<Vec<(String, JsonValue)>>) -> (r: Option<
    IndexMap<String, Vec<String>>,
>)
    ensures
        r is Some <==> raw is Some,
        raw matches Some(entries) ==> headers::header_entries(r->Some_0) == headers_of(
            json::pairs(entries@),
        ),
{
    match raw {
        None => None,
        Some(entries) => {
            let ghost held = json::pairs(entries@);
            let mut out = headers::no_headers();
            assert(held.take(0) =~= Seq::<(Seq<char>, Json)>::empty());
            for entry in it: entries
                invariant
                    it.seq() == entries@,
                    held == json::pairs(entries@),
                    headers::header_entries(out) == headers_of(held.take(it.index())),
            {
                proof {
                    let done = held.take(it.index() + 1);
                    assert(done.drop_last() =~= held.take(it.index()));
                    assert(done.last() == (entry.0@, entry.1.tree()));
                }
                let (key, value) = entry;
                let values = values_of(value);
                headers::insert_header(&mut out, key.as_str().to_lowercase(), values);
            }
            assert(held.take(held.len() as int) =~= held);
            Some(out)
        },
    }
}

/// An array gives a header its texts, in their order, and nothing else that is in it.
pub proof fn arrays_give_their_texts(items: Seq<Json>)
    ensures
        header_values(Json::Array(items)) == items.filter(|item: Json| item is Text).map_values(
            |item: Json| item->Text_0,
        ),
    decreases items.len(),
{
    reveal(Seq::filter);
    if items.len() > 0 {
        let before = items.drop_last();
        arrays_give_their_texts(before);
        assert(Json::Array(before)->Array_0 == before);
        let is_text = |item: Json| item is Text;
        let text_of = |item: Json| item->Text_0;
        if items.last() is Text {
            assert(items.filter(is_text).map_values(text_of) =~= before.filter(is_text).map_values(
                text_of,
            ).push(items.last()->Text_0));
        }
    }
    assert(header_values(Json::Array(items)) =~= items.filter(
        |item: Json| item is Text,
    ).map_values(|item: Json| item->Text_0));
}

/// A text is the one value of its header; what is neither a text nor an array is one
/// value that reads as the JSON does.
pub proof fn other_json_gives_one_value(v: Json)
    requires
        v !is Array,
    ensures
        header_values(v).len() == 1,
        v matches Json::Text(s) ==> header_values(v)[0] == s,
        v !is Text ==> header_values(v)[0] == json::json_text(v),
{
}

/// Every key of the object is among the headers in lower case; where no later key is the
/// same but for its case, with the values that its JSON gives.
pub proof fn the_last_values_count(entries: Seq<(Seq<char>, Json)>, k: int)
    requires
        0 <= k < entries.len(),
        forall|j: int|
            k < j < entries.len() ==> text::lowercase((#[trigger] entries[j]).0)
                != text::lowercase(entries[k].0),
    ensures
        headers_of(entries).contains(
            (text::lowercase(entries[k].0), header_values(entries[k].1)),
        ),
    decreases entries.len(),
{
    let before = entries.drop_last();
    let list = headers_of(before);
    let after = headers_of(entries);
    let name = text::lowercase(entries.last().0);
    if k < before.len() {
        assert(before[k] == entries[k]);
        assert forall|j: int| k < j < before.len() implies text::lowercase(
            (#[trigger] before[j]).0,
        ) != text::lowercase(before[k].0) by {
            assert(before[j] == entries[j]);
        }
        the_last_values_count(before, k);
        let wanted = (text::lowercase(entries[k].0), header_values(entries[k].1));
        let i = choose|i: int| 0 <= i < list.len() && list[i] == wanted;
        assert(entries[entries.len() - 1] == entries.last());
        assert(after[i] == wanted);
    } else {
        let values = header_values(entries.last().1);
        if headers::has_name(list, name) {
            let i = choose|i: int| 0 <= i < list.len() && (#[trigger] list[i]).0 == name;
            assert(after[i] == (name, values));
        } else {
            assert(after[list.len() as int] == (name, values));
        }
    }
}

/// Headers stand in the order in which their names first occur: of two headers, the name
/// of the first is found among the keys before the name of the second.
pub proof fn headers_keep_their_order(entries: Seq<(Seq<char>, Json)>, i: int, j: int) -> (k: int)
    requires
        0 <= i < j < headers_of(entries).len(),
    ensures
        0 <= k < entries.len(),
        text::lowercase(entries[k].0) == headers_of(entries)[i].0,
        forall|m: int|
            0 <= m <= k ==> text::lowercase((#[trigger] entries[m]).0) != headers_of(
                entries,
            )[j].0,
    decreases entries.len(),
{
    let before = entries.drop_last();
    let list = headers_of(before);
    let after = headers_of(entries);
    let name = text::lowercase(entries.last().0);
    assert(list[i].0 == after[i].0);
    if j < list.len() {
        assert(list[j].0 == after[j].0);
        let k = headers_keep_their_order(before, i, j);
        assert forall|m: int| 0 <= m <= k implies text::lowercase((#[trigger] entries[m]).0)
            != after[j].0 by {
            assert(entries[m] == before[m]);
        }
        assert(entries[k] == before[k]);
        k
    } else {
        header_names_are_lowercase_and_distinct(before);
        let k = choose|k: int|
            0 <= k < before.len() && list[i].0 == text::lowercase((#[trigger] before[k]).0);
        assert(entries[k] == before[k]);
        assert forall|m: int| 0 <= m <= k implies text::lowercase((#[trigger] entries[m]).0)
            != after[j].0 by {
            assert(entries[m] == before[m]);
            every_key_has_a_header(before, m);
        }
        k
    }
}

/// Every key of the object is among the headers, in lower case.
pub proof fn every_key_has_a_header(entries: Seq<(Seq<char>, Json)>, k: int)
    requires
        0 <= k < entries.len(),
    ensures
        headers::has_name(headers_of(entries), text::lowercase(entries[k].0)),
    decreases entries.len(),
{
    let before = entries.drop_last();
    let list = headers_of(before);
    let after = headers_of(entries);
    let name = text::lowercase(entries.last().0);
    if k < before.len() {
        every_key_has_a_header(before, k);
        let i = choose|i: int|
            0 <= i < list.len() && (#[trigger] list[i]).0 == text::lowercase(before[k].0);
        assert(after[i].0 == list[i].0);
    } else if headers::has_name(list, name) {
        let i = choose|i: int| 0 <= i < list.len() && (#[trigger] list[i]).0 == name;
        assert(after[i].0 == name);
    } else {
        assert(after[list.len() as int].0 == name);
    }
}

/// No name occurs twice among the headers of a record, and each is the lower-case form
/// of a key of the object.
pub proof fn header_names_are_lowercase_and_distinct(entries: Seq<(Seq<char>, Json)>)
    ensures
        forall|i: int, j: int|
            0 <= i < j < headers_of(entries).len() ==> (#[trigger] headers_of(entries)[i]).0 != (
            #[trigger] headers_of(entries)[j]).0,
        forall|i: int|
            0 <= i < headers_of(entries).len() ==> exists|k: int|
                0 <= k < entries.len() && (#[trigger] headers_of(entries)[i]).0 == text::lowercase(
                    (#[trigger] entries[k]).0,
                ),
    decreases entries.len(),
{
    if entries.len() > 0 {
        let before = entries.drop_last();
        let last = entries.len() - 1;
        let name = text::lowercase(entries.last().0);
        header_names_are_lowercase_and_distinct(before);
        assert forall|i: int| 0 <= i < headers_of(entries).len() implies exists|k: int|
            0 <= k < entries.len() && (#[trigger] headers_of(entries)[i]).0 == text::lowercase(
                (#[trigger] entries[k]).0,
            ) by {
            if headers_of(entries)[i].0 == name {
                assert(entries[last].0 == entries.last().0);
            } else {
                assert(headers_of(before)[i].0 == headers_of(entries)[i].0);
                let k = choose|k: int|
                    0 <= k < before.len() && headers_of(before)[i].0 == text::lowercase(
                        (#[trigger] before[k]).0,
                    );
                assert(entries[k] == before[k]);
            }
        }
        assert forall|i: int, j: int| 0 <= i < j < headers_of(entries).len() implies (
        #[trigger] headers_of(entries)[i]).0 != (#[trigger] headers_of(entries)[j]).0 by {
            if j < headers_of(before).len() {
                assert(headers_of(before)[i].0 != headers_of(before)[j].0);
            } else {
                assert(headers_of(before)[i].0 == headers_of(entries)[i].0);
            }
        }
    }
}

} // verus!
