//! Header lists as they are recorded, and header maps as they are sent.

use indexmap::IndexMap;
use reqwest::header::{HeaderMap, HeaderName, HeaderValue};
use vstd::prelude::*;

use crate::text;

verus! {

/// `indexmap::IndexMap`, which keeps its entries in the order in which their keys were
/// first inserted.
#[verifier::external_type_specification]
#[verifier::external_body]
#[verifier::reject_recursive_types(K)]
#[verifier::reject_recursive_types(V)]
#[verifier::reject_recursive_types(S)]
pub struct ExIndexMap<K, V, S>(indexmap::IndexMap<K, V, S>);

/// `http::HeaderMap`, which holds a list of values for each header name.
#[verifier::external_type_specification]
#[verifier::external_body]
#[verifier::reject_recursive_types(T)]
pub struct ExHeaderMap<T>(reqwest::header::HeaderMap<T>);

/// `http::HeaderName`.
#[verifier::external_type_specification]
#[verifier::external_body]
pub struct ExHeaderName(reqwest::header::HeaderName);

/// `http::HeaderValue`.
#[verifier::external_type_specification]
#[verifier::external_body]
pub struct ExHeaderValue(reqwest::header::HeaderValue);

/// One header of a record: its name and its values.
pub type HeaderEntry = (Seq<char>, Seq<Seq<char>>);

/// The entries of a header list, in their order.
pub uninterp spec fn header_entries(headers: IndexMap<String, Vec<String>>) -> Seq<HeaderEntry>;

/// The values of each name in a header map, in the order in which they were appended.
pub uninterp spec fn header_contents(headers: HeaderMap<HeaderValue>) -> Map<
    Seq<char>,
    Seq<Seq<char>>,
>;

/// The text of a header name.
pub uninterp spec fn header_name_text(name: HeaderName) -> Seq<char>;

/// The text of a header value.
pub uninterp spec fn header_value_text(value: HeaderValue) -> Seq<char>;

/// Whether a name is among the entries.
pub open spec fn has_name(entries: Seq<HeaderEntry>, name: Seq<char>) -> bool {
    exists|i: int| 0 <= i < entries.len() && (#[trigger] entries[i]).0 == name
}

/// The entries after one more is put in: a name that is there keeps its place and gets
/// the new values, another one goes to the end.
pub open spec fn put(
    entries: Seq<HeaderEntry>,
    name: Seq<char>,
    values: Seq<Seq<char>>,
) -> Seq<HeaderEntry> {
    if has_name(entries, name) {
        entries.map_values(
            |e: HeaderEntry|
                if e.0 == name {
                    (name, values)
                } else {
                    e
                },
        )
    } else {
        entries.push((name, values))
    }
}

/// `IndexMap::new`: a list without entries.
#[verifier::external_body]
pub(crate) fn no_headers() -> (r: IndexMap<String, Vec<String>>)
    ensures
        header_entries(r) == Seq::<HeaderEntry>::empty(),
{
    IndexMap::new()
}

/// `IndexMap::len`: how many entries the list has.
#[verifier::external_body]
pub(crate) fn header_count(headers: &IndexMap<String, Vec<String>>) -> (r: usize)
    ensures
        r == header_entries(*headers).len(),
{
    headers.len()
}

/// `IndexMap::get_index`: the entry at a place, if there are that many. No other entry
/// has the same name.
#[verifier::external_body]
pub(crate) fn header_at(headers: &IndexMap<String, Vec<String>>, at: usize) -> (r: Option<
    (&String, &Vec<String>),
>)
    ensures
        r is Some <==> at < header_entries(*headers).len(),
        r matches Some(e) ==> header_entries(*headers)[at as int] == (e.0@, text::texts(e.1@)),
        r matches Some(e) ==> forall|j: int|
            0 <= j < header_entries(*headers).len() && j != at ==> (#[trigger] header_entries(
                *headers,
            )[j]).0 != e.0@,
{
    headers.get_index(at)
}

/// `IndexMap::insert`: a name that is in the list keeps its place and gets the new
/// values, and its old ones are handed out; another one goes to the end.
#[verifier::external_body]
pub(crate) fn insert_header(
    headers: &mut IndexMap<String, Vec<String>>,
    name: String,
    values: Vec<String>,
) -> (r: Option<Vec<String>>)
    ensures
        header_entries(*final(headers)) == put(
            header_entries(*old(headers)),
            name@,
            text::texts(values@),
        ),
        r is Some <==> has_name(header_entries(*old(headers)), name@),
{
    headers.insert(name, values)
}

/// `IndexMap::clone`: a list with the same entries.
#[verifier::external_body]
pub(crate) fn copy_header_list(headers: &IndexMap<String, Vec<String>>) -> (r: IndexMap<
    String,
    Vec<String>,
>)
    ensures
        header_entries(r) == header_entries(*headers),
{
    headers.clone()
}

/// How long a header name may be.
pub const MAX_NAME_LEN: usize = 65535;

/// A header map takes another value for certain while it holds no more names than this.
pub const MAX_HEADER_NAMES: usize = 6553;

/// A character that may stand in a header name or in a method.
pub open spec fn is_token_char(c: char) -> bool {
    ||| '0' <= c <= '9'
    ||| text::is_upper_letter(c)
    ||| text::is_lower_letter(c)
    ||| c == '!' || c == '#' || c == '$' || c == '%' || c == '&' || c == '\'' || c == '*'
    ||| c == '+' || c == '-' || c == '.' || c == '^' || c == '_' || c == '`' || c == '|' || c == '~'
}

/// A text that is made of token characters and is not empty.
pub open spec fn is_token(s: Seq<char>) -> bool {
    s.len() > 0 && forall|i: int| 0 <= i < s.len() ==> is_token_char(#[trigger] s[i])
}

/// A text that can be a header name.
pub open spec fn is_header_name(s: Seq<char>) -> bool {
    is_token(s) && s.len() <= MAX_NAME_LEN
}

/// A text that can be a header value: no control character but the tab.
pub open spec fn is_header_value(s: Seq<char>) -> bool {
    forall|i: int|
        0 <= i < s.len() ==> (#[trigger] s[i] == '\t' || (s[i] >= ' ' && s[i] != '\u{7f}'))
}

/// `HeaderName::from_bytes` on the bytes of a text: succeeds on a text that can be a
/// header name, and puts its letters in lower case.
#[verifier::external_body]
pub(crate) fn header_name(s: &str) -> (r: Option<HeaderName>)
    ensures
        r is Some <==> is_header_name(s@),
        r matches Some(name) ==> header_name_text(name) == text::ascii_lowercase(s@),
{
    HeaderName::from_bytes(s.as_bytes()).ok()
}

/// `HeaderValue::from_str`: succeeds on a text without control characters but the tab,
/// and keeps the text.
#[verifier::external_body]
pub(crate) fn header_value(s: &str) -> (r: Option<HeaderValue>)
    ensures
        r is Some <==> is_header_value(s@),
        r matches Some(value) ==> header_value_text(value) == s@,
{
    HeaderValue::from_str(s).ok()
}

/// A header map with one more value.
pub open spec fn appended(
    contents: Map<Seq<char>, Seq<Seq<char>>>,
    name: Seq<char>,
    value: Seq<char>,
) -> Map<Seq<char>, Seq<Seq<char>>> {
    if contents.contains_key(name) {
        contents.insert(name, contents[name].push(value))
    } else {
        contents.insert(name, seq![value])
    }
}

/// `HeaderMap::new`: a map without headers.
#[verifier::external_body]
pub(crate) fn empty_header_map() -> (r: HeaderMap<HeaderValue>)
    ensures
        header_contents(r) == (Map::<Seq<char>, Seq<Seq<char>>>::empty()),
{
    HeaderMap::new()
}

/// `HeaderMap::try_append` with a clone of the name: the value goes behind the others of
/// its name; the result says whether there were any. The map can refuse to grow only
/// once it holds more names than [`MAX_HEADER_NAMES`]. Nothing is said of what it holds
/// after that.
#[verifier::external_body]
pub(crate) fn append_header(
    headers: &mut HeaderMap<HeaderValue>,
    name: &HeaderName,
    value: HeaderValue,
) -> (r: Option<bool>)
    ensures
        header_contents(*old(headers)).dom().finite() && header_contents(*old(headers)).dom().len()
            <= MAX_HEADER_NAMES ==> r is Some,
        r is Some ==> header_contents(*final(headers)) == appended(
            header_contents(*old(headers)),
            header_name_text(*name),
            header_value_text(value),
        ),
        r matches Some(known) ==> known == header_contents(*old(headers)).contains_key(
            header_name_text(*name),
        ),
{
    headers.try_append(name.clone(), value).ok()
}

/// `HeaderMap::clone`: a map with the same headers.
#[verifier::external_body]
pub(crate) fn copy_header_map(headers: &HeaderMap<HeaderValue>) -> (r: HeaderMap<HeaderValue>)
    ensures
        header_contents(r) == header_contents(*headers),
{
    headers.clone()
}

} // verus!
