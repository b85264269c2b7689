//! Whole records.

use base64::Engine;
use bytes::Bytes;
use indexmap::IndexMap;
use vstd::prelude::*;

use crate::config::Config;
use crate::error::TrafficReplayerError;
use crate::headers;
use crate::headers::HeaderEntry;
use crate::json;
use crate::keys::KeySet;
use crate::models;
use crate::models::{ReplayRecord, SanitizedReplayRecord};
use crate::sanitize::body;
use crate::sanitize::body::BodySanitizer;
use crate::sanitize::query;
use crate::sanitize::query::QuerySanitizer;
use crate::sanitize::removal;
use crate::sanitize::removal::HeaderSanitizer;
use crate::text;

verus! {

/// What the `STANDARD` engine of `base64` makes of a text: the bytes, or the words of
/// its error.
pub uninterp spec fn base64_decoded(text: Seq<char>) -> Result<Seq<u8>, Seq<char>>;

/// `base64::Engine::decode` on the engine `STANDARD`. What comes out has the name
/// [`base64_decoded`]; of an error, its words.
#[verifier::external_body]
fn decode_base64(s: &str) -> (r: Result<Vec<u8>, String>)
    ensures
        r matches Ok(v) ==> base64_decoded(s@) == (Ok::<Seq<u8>, Seq<char>>(v@)),
        r matches Err(e) ==> base64_decoded(s@) == (Err::<Seq<u8>, Seq<char>>(e@)),
{
    base64::engine::general_purpose::STANDARD.decode(s).map_err(|e| e.to_string())
}

/// A decoded body, ready to be sent; or the error that says why it could not be
/// decoded.
pub fn decoded_body(decoded: Result<Vec<u8>, String>) -> (r: Result<Bytes, TrafficReplayerError>)
    ensures
        decoded matches Ok(v) ==> (r matches Ok(b) && models::body_bytes(b) == v@),
        decoded matches Err(e) ==> r == Err::<Bytes, TrafficReplayerError>(
            TrafficReplayerError::Base64Decode(e),
        ),
{
    match decoded {
        Ok(v) => Ok(models::bytes_from(v)),
        Err(e) => Err(TrafficReplayerError::Base64Decode(e)),
    }
}

/// The URL of a request: base, path, and the sanitized query behind a question mark.
pub open spec fn request_url(
    base_url: Seq<char>,
    path: Seq<char>,
    query: Option<Seq<char>>,
    exempt: Set<Seq<char>>,
) -> Seq<char> {
    let clean = match query {
        Some(q) => query::sanitized_query(q, exempt),
        None => Seq::empty(),
    };
    if clean.len() == 0 {
        base_url + path
    } else if query::is_marked(clean) {
        base_url + path + clean
    } else {
        base_url + path + seq!['?'] + clean
    }
}

/// The body of a request: a base64 body is decoded and not looked into, any other is
/// sanitized; or the words of the decoder's error.
pub open spec fn request_body(
    body: Option<Seq<char>>,
    encoding: Option<Seq<char>>,
    content_type: Option<Seq<char>>,
    exempt: Set<Seq<char>>,
) -> Result<Option<Seq<u8>>, Seq<char>> {
    match body {
        None => Ok(None),
        Some(b) => if encoding == Some("base64"@) {
            match base64_decoded(b) {
                Ok(v) => Ok(Some(v)),
                Err(e) => Err(e),
            }
        } else {
            Ok(Some(vstd::utf8::encode_utf8(body::sanitized_body(b, content_type, exempt))))
        },
    }
}

/// The headers of a record; none where it has no header list.
pub open spec fn record_headers(record: ReplayRecord) -> Seq<HeaderEntry> {
    match record.headers {
        Some(h) => headers::header_entries(h),
        None => Seq::empty(),
    }
}

/// The body that a record is sent with, if it can be decoded.
pub open spec fn record_body(record: ReplayRecord, exempt: Set<Seq<char>>) -> Result<
    Option<Seq<u8>>,
    Seq<char>,
> {
    request_body(
        text::optional_text(record.body),
        text::optional_text(record.body_encoding),
        text::optional_text(record.content_type),
        exempt,
    )
}

/// What sanitizing a record gives: the request, or the error of a base64 body that
/// cannot be decoded.
pub open spec fn is_sanitized_as(
    record: ReplayRecord,
    base_url: Seq<char>,
    exempt: Set<Seq<char>>,
    r: Result<SanitizedReplayRecord, TrafficReplayerError>,
) -> bool {
    match r {
        Ok(s) => {
            &&& record_body(record, exempt) == Ok::<Option<Seq<u8>>, Seq<char>>(
                models::optional_bytes(s.body),
            )
            &&& s.method == record.method
            &&& s.url@ == request_url(
                base_url,
                record.path@,
                text::optional_text(record.query),
                exempt,
            )
            &&& headers::header_contents(s.headers) == removal::sent_headers(
                removal::kept_headers(record_headers(record), exempt),
            )
            &&& s.content_type == record.content_type
        },
        Err(e) => {
            &&& e matches TrafficReplayerError::Base64Decode(t)
            &&& record_body(record, exempt) == Err::<Option<Seq<u8>>, Seq<char>>(t@)
        },
    }
}

/// Whether the body of a record is decoded and not looked into.
pub open spec fn is_base64(record: ReplayRecord) -> bool {
    text::optional_text(record.body_encoding) == Some("base64"@)
}

/// What can be read out of the body of a request as JSON holds nothing secret.
pub open spec fn sends_clean_json(record: ReplayRecord, exempt: Set<Seq<char>>) -> bool {
    let content_type = text::optional_text(record.content_type);
    record.body matches Some(b) ==> !is_base64(record) ==> body::reads_back_clean(
        b@,
        content_type,
        exempt,
        body::sanitized_body(b@, content_type, exempt),
    )
}

/// No header of a request is a secret one, unless it is exempt.
pub proof fn no_secret_header_leaves(
    record: ReplayRecord,
    base_url: Seq<char>,
    exempt: Set<Seq<char>>,
    request: SanitizedReplayRecord,
    name: Seq<char>,
)
    requires
        is_sanitized_as(record, base_url, exempt, Ok(request)),
        headers::header_contents(request.headers).contains_key(name),
        removal::is_denied_header(name),
    ensures
        exempt.contains(name),
{
    removal::no_secret_header_is_sent(record_headers(record), exempt, name);
}

/// The URL of a request is the base, the path and a query that begins with a question
/// mark, if it is not empty, and holds no secret.
pub proof fn no_secret_parameter_leaves(
    record: ReplayRecord,
    base_url: Seq<char>,
    exempt: Set<Seq<char>>,
    request: SanitizedReplayRecord,
)
    requires
        is_sanitized_as(record, base_url, exempt, Ok(request)),
    ensures
        exists|q: Seq<char>| #[trigger]
            query::is_clean_query(q, exempt) && (q.len() == 0 || query::is_marked(q))
                && request.url@ == base_url + record.path@ + q,
{
    let given = match text::optional_text(record.query) {
        Some(q) => q,
        None => Seq::empty(),
    };
    let clean = query::sanitized_query(given, exempt);
    query::sanitized_query_is_clean(given, exempt);
    if clean.len() == 0 || query::is_marked(clean) {
        assert(request.url@ =~= base_url + record.path@ + clean);
    } else {
        let q = seq!['?'] + clean;
        assert(query::unmarked(q) =~= clean);
        assert(query::query_pairs(q) == query::query_pairs(clean));
        assert(query::is_clean_query(q, exempt));
        assert(request.url@ =~= base_url + record.path@ + q);
    }
}

/// A base URL without a slash at its end and a path give a URL without a double slash
/// between them.
pub proof fn base_and_path_join_without_double_slash(
    base_url: Seq<char>,
    path: Seq<char>,
    query: Option<Seq<char>>,
    exempt: Set<Seq<char>>,
)
    requires
        base_url.len() > 0,
        base_url.last() != '/',
        path.len() > 0,
    ensures
        request_url(base_url, path, query, exempt)[base_url.len() - 1] != '/',
        request_url(base_url, path, query, exempt)[base_url.len() as int] == path[0],
{
}

/// The URL of a request: the base and the path, and behind them the sanitized query,
/// unless there is none or it is empty, with one question mark before it.
pub proof fn url_is_base_path_and_query(
    base_url: Seq<char>,
    path: Seq<char>,
    query: Seq<char>,
    exempt: Set<Seq<char>>,
)
    ensures
        request_url(base_url, path, None, exempt) == base_url + path,
        query.len() == 0 ==> request_url(base_url, path, Some(query), exempt) == base_url + path,
        query.len() > 0 && query[0] == '?' ==> request_url(base_url, path, Some(query), exempt)
            == base_url + path + query::sanitized_query(query, exempt),
        query.len() > 0 && query[0] != '?' ==> request_url(base_url, path, Some(query), exempt)
            == base_url + path + seq!['?'] + query::sanitized_query(query, exempt),
{
    query::sanitizing_goes_pair_by_pair(query, exempt);
}

/// A body that is marked as `base64` is sent as the bytes that it stands for, and it
/// cannot be sent where it stands for none; any other body is sent as the UTF-8 of its
/// sanitized text. What has no body is sent without one.
pub proof fn bodies_are_decoded_or_sanitized(
    body: Seq<char>,
    encoding: Option<Seq<char>>,
    content_type: Option<Seq<char>>,
    exempt: Set<Seq<char>>,
)
    ensures
        request_body(None, encoding, content_type, exempt) == Ok::<
            Option<Seq<u8>>,
            Seq<char>,
        >(None),
        encoding == Some("base64"@) ==> (match base64_decoded(body) {
            Ok(bytes) => request_body(Some(body), encoding, content_type, exempt) == Ok::<
                Option<Seq<u8>>,
                Seq<char>,
            >(Some(bytes)),
            Err(e) => request_body(Some(body), encoding, content_type, exempt) == Err::<
                Option<Seq<u8>>,
                Seq<char>,
            >(e),
        }),
        encoding != Some("base64"@) ==> request_body(Some(body), encoding, content_type, exempt)
            == Ok::<Option<Seq<u8>>, Seq<char>>(
            Some(vstd::utf8::encode_utf8(body::sanitized_body(body, content_type, exempt))),
        ),
{
}

/// A request has the method and the content type of its record, its URL, its headers and
/// its body.
pub proof fn requests_follow_their_records(
    record: ReplayRecord,
    base_url: Seq<char>,
    exempt: Set<Seq<char>>,
    request: SanitizedReplayRecord,
)
    requires
        is_sanitized_as(record, base_url, exempt, Ok(request)),
    ensures
        request.method@ == record.method@,
        request.content_type == record.content_type,
        request.url@ == request_url(
            base_url,
            record.path@,
            match record.query {
                Some(q) => Some(q@),
                None => None,
            },
            exempt,
        ),
        record.headers matches Some(h) ==> headers::header_contents(request.headers)
            == removal::sent_headers(removal::kept_headers(headers::header_entries(h), exempt)),
        record.headers is None ==> headers::header_contents(request.headers) == (Map::<
            Seq<char>,
            Seq<Seq<char>>,
        >::empty()),
        record.body is None ==> request.body is None,
        record.body matches Some(b) ==> (request.body matches Some(sent) && request_body(
            Some(b@),
            match record.body_encoding {
                Some(e) => Some(e@),
                None => None,
            },
            match record.content_type {
                Some(c) => Some(c@),
                None => None,
            },
            exempt,
        ) == Ok::<Option<Seq<u8>>, Seq<char>>(Some(models::body_bytes(sent)))),
{
}

/// A header of a record whose lower-case name can be sent, and is neither the name of a
/// credential nor one that the HTTP client sets, leaves with each of its values that can
/// be sent.
pub proof fn other_headers_leave(
    record: ReplayRecord,
    base_url: Seq<char>,
    exempt: Set<Seq<char>>,
    request: SanitizedReplayRecord,
    i: int,
    j: int,
)
    requires
        is_sanitized_as(record, base_url, exempt, Ok(request)),
        record.headers is Some,
        0 <= i < headers::header_entries(record.headers->Some_0).len(),
        ({
            let header = headers::header_entries(record.headers->Some_0)[i];
            let lower = text::lowercase(header.0);
            &&& headers::is_header_name(lower)
            &&& lower != "authorization"@
            &&& lower != "cookie"@
            &&& lower != "set-cookie"@
            &&& lower != "x-api-key"@
            &&& lower != "proxy-authorization"@
            &&& lower != "host"@
            &&& lower != "content-length"@
            &&& lower != "connection"@
            &&& lower != "transfer-encoding"@
            &&& lower != "keep-alive"@
            &&& 0 <= j < header.1.len()
            &&& headers::is_header_value(header.1[j])
        }),
    ensures
        ({
            let header = headers::header_entries(record.headers->Some_0)[i];
            let sent = headers::header_contents(request.headers);
            let lower = text::lowercase(header.0);
            sent.contains_key(lower) && sent[lower].contains(header.1[j])
        }),
{
    removal::other_headers_are_sent(headers::header_entries(record.headers->Some_0), exempt, i, j);
}

/// No credential leaves in a header unless its name is exempt, and no header leaves that
/// the HTTP client sets.
pub proof fn credentials_do_not_leave(
    record: ReplayRecord,
    base_url: Seq<char>,
    exempt: Set<Seq<char>>,
    request: SanitizedReplayRecord,
)
    requires
        is_sanitized_as(record, base_url, exempt, Ok(request)),
    ensures
        ({
            let sent = headers::header_contents(request.headers);
            &&& sent.contains_key("authorization"@) ==> exempt.contains("authorization"@)
            &&& sent.contains_key("cookie"@) ==> exempt.contains("cookie"@)
            &&& sent.contains_key("set-cookie"@) ==> exempt.contains("set-cookie"@)
            &&& sent.contains_key("x-api-key"@) ==> exempt.contains("x-api-key"@)
            &&& sent.contains_key("proxy-authorization"@) ==> exempt.contains(
                "proxy-authorization"@,
            )
            &&& !sent.contains_key("host"@)
            &&& !sent.contains_key("content-length"@)
            &&& !sent.contains_key("connection"@)
            &&& !sent.contains_key("transfer-encoding"@)
            &&& !sent.contains_key("keep-alive"@)
        }),
{
    let entries = record_headers(record);
    removal::what_is_sent_under_a_name(entries, exempt, "authorization"@);
    removal::what_is_sent_under_a_name(entries, exempt, "cookie"@);
    removal::what_is_sent_under_a_name(entries, exempt, "set-cookie"@);
    removal::what_is_sent_under_a_name(entries, exempt, "x-api-key"@);
    removal::what_is_sent_under_a_name(entries, exempt, "proxy-authorization"@);
    removal::what_is_sent_under_a_name(entries, exempt, "host"@);
    removal::what_is_sent_under_a_name(entries, exempt, "content-length"@);
    removal::what_is_sent_under_a_name(entries, exempt, "connection"@);
    removal::what_is_sent_under_a_name(entries, exempt, "transfer-encoding"@);
    removal::what_is_sent_under_a_name(entries, exempt, "keep-alive"@);
}

/// A record is refused only for a body that is marked as `base64` and stands for no
/// bytes, and the error holds the words of the decoder.
pub proof fn only_undecodable_bodies_are_refused(
    record: ReplayRecord,
    base_url: Seq<char>,
    exempt: Set<Seq<char>>,
    error: TrafficReplayerError,
)
    requires
        is_sanitized_as(record, base_url, exempt, Err(error)),
    ensures
        record.body_encoding matches Some(e) && e@ == "base64"@,
        record.body matches Some(b) && error matches TrafficReplayerError::Base64Decode(words)
            && base64_decoded(b@) == Err::<Seq<u8>, Seq<char>>(words@),
{
}

/// Takes the personal data out of whole records and makes requests of them.
pub struct RecordSanitizer {
    header_sanitizer: HeaderSanitizer,
    query_sanitizer: QuerySanitizer,
    body_sanitizer: BodySanitizer,
}

impl RecordSanitizer {
    /// The keys that are left alone, in headers, query and body.
    pub closed spec fn exempt(&self) -> Set<Seq<char>> {
        self.header_sanitizer.exempt()
    }

    /// The three parts leave the same keys alone.
    #[verifier::type_invariant]
    spec fn agrees(self) -> bool {
        &&& self.query_sanitizer.exempt() == self.header_sanitizer.exempt()
        &&& self.body_sanitizer.exempt() == self.header_sanitizer.exempt()
    }

    /// A sanitizer that leaves these keys alone, which are in lower case.
    pub fn new(passthrough_keys: KeySet) -> (r: Self)
        ensures
            r.exempt() == passthrough_keys@,
    {
        RecordSanitizer {
            header_sanitizer: HeaderSanitizer::new(passthrough_keys.clone()),
            query_sanitizer: QuerySanitizer::new(passthrough_keys.clone()),
            body_sanitizer: BodySanitizer::new(passthrough_keys),
        }
    }

    fn url(&self, base_url: &str, path: &str, query: &Option<String>) -> (r: String)
        ensures
            r@ == request_url(base_url@, path@, text::optional_text(*query), self.exempt()),
    {
        proof {
            use_type_invariant(self);
            reveal_strlit("?");
        }
        let clean = match query {
            Some(q) => self.query_sanitizer.sanitize(q.as_str()),
            None => String::new(),
        };
        let mut url = base_url.to_owned();
        url.append(path);
        if clean.as_str().unicode_len() > 0 {
            if clean.as_str().get_char(0) != '?' {
                url.append("?");
            }
            url.append(clean.as_str());
        }
        assert(url@ =~= request_url(base_url@, path@, text::optional_text(*query), self.exempt()));
        url
    }

    fn body(
        &self,
        body: &Option<String>,
        encoding: &Option<String>,
        content_type: &Option<String>,
    ) -> (r: Result<Option<Bytes>, TrafficReplayerError>)
        ensures
            ({
                let sent = request_body(
                    text::optional_text(*body),
                    text::optional_text(*encoding),
                    text::optional_text(*content_type),
                    self.exempt(),
                );
                match r {
                    Ok(b) => sent == Ok::<Option<Seq<u8>>, Seq<char>>(models::optional_bytes(b)),
                    Err(e) => e matches TrafficReplayerError::Base64Decode(t) && sent == Err::<
                        Option<Seq<u8>>,
                        Seq<char>,
                    >(t@),
                }
            }),
            text::optional_text(*encoding) != Some("base64"@) ==> (*body matches Some(b)
                ==> body::reads_back_clean(
                b@,
                text::optional_text(*content_type),
                self.exempt(),
                body::sanitized_body(b@, text::optional_text(*content_type), self.exempt()),
            )),
    {
        proof {
            use_type_invariant(self);
        }
        match body {
            None => Ok(None),
            Some(b) => {
                let is_base64 = match encoding {
                    Some(e) => text::same_text(e.as_str(), "base64"),
                    None => false,
                };
                if is_base64 {
                    match decoded_body(decode_base64(b.as_str())) {
                        Ok(bytes) => Ok(Some(bytes)),
                        Err(e) => Err(e),
                    }
                } else {
                    let content_type: Option<&str> = match content_type {
                        Some(ct) => Some(ct.as_str()),
                        None => None,
                    };
                    let clean = self.body_sanitizer.sanitize(b.as_str(), content_type);
                    Ok(Some(models::bytes_from(clean.as_str().as_bytes_vec())))
                }
            },
        }
    }

    /// The request that a record is sent as: sensitive headers are removed, sensitive
    /// query parameters and JSON fields redacted, a base64 body is decoded. It fails
    /// only on a base64 body that cannot be decoded. There is no result where the header
    /// map refuses to hold the headers, which it never does while they are no more than
    /// [`headers::MAX_HEADER_NAMES`].
    pub fn try_sanitize(&self, record: ReplayRecord, base_url: &str) -> (r: Option<
        Result<SanitizedReplayRecord, TrafficReplayerError>,
    >)
        ensures
            r matches Some(result) ==> is_sanitized_as(record, base_url@, self.exempt(), result),
            r matches Some(Ok(_)) ==> sends_clean_json(record, self.exempt()),
            r is None ==> record_headers(record).len() > headers::MAX_HEADER_NAMES && record_body(
                record,
                self.exempt(),
            ) is Ok,
    {
        let url = self.url(base_url, record.path.as_str(), &record.query);
        let body = match self.body(&record.body, &record.body_encoding, &record.content_type) {
            Ok(body) => body,
            Err(e) => {
                return Some(Err(e));
            },
        };
        let sent = match &record.headers {
            Some(list) => {
                let clean = self.header_sanitizer.sanitize(list);
                proof {
                    kept_headers_are_no_more(headers::header_entries(*list), self.exempt());
                }
                match removal::build_headers(&clean) {
                    Some(map) => map,
                    None => {
                        return None;
                    },
                }
            },
            None => headers::empty_header_map(),
        };
        Some(
            Ok(
                SanitizedReplayRecord {
                    method: record.method,
                    url,
                    headers: sent,
                    body,
                    content_type: record.content_type,
                },
            ),
        )
    }

    /// The request that a record is sent as, for a record whose headers a header map is
    /// sure to hold.
    pub fn sanitize(&self, record: ReplayRecord, base_url: &str) -> (r: Result<
        SanitizedReplayRecord,
        TrafficReplayerError,
    >)
        requires
            record_headers(record).len() <= headers::MAX_HEADER_NAMES,
        ensures
            is_sanitized_as(record, base_url@, self.exempt(), r),
            r is Ok ==> sends_clean_json(record, self.exempt()),
    {
        self.try_sanitize(record, base_url).unwrap()
    }
}

/// Removing headers does not make them more.
proof fn kept_headers_are_no_more(entries: Seq<HeaderEntry>, exempt: Set<Seq<char>>)
    ensures
        removal::kept_headers(entries, exempt).len() <= entries.len(),
    decreases entries.len(),
{
    if entries.len() > 0 {
        kept_headers_are_no_more(entries.drop_last(), exempt);
    }
}

/// The headers without the sensitive ones.
pub fn sanitize_headers(
    headers: &IndexMap<String, Vec<String>>,
    passthrough_keys: &KeySet,
) -> (r: IndexMap<String, Vec<String>>)
    ensures
        headers::header_entries(r) == removal::kept_headers(
            headers::header_entries(*headers),
            passthrough_keys@,
        ),
{
    HeaderSanitizer::new(passthrough_keys.clone()).sanitize(headers)
}

/// The query with the values of sensitive parameters redacted.
pub fn sanitize_query(query: &str, passthrough_keys: &KeySet) -> (r: String)
    ensures
        r@ == query::sanitized_query(query@, passthrough_keys@),
{
    QuerySanitizer::new(passthrough_keys.clone()).sanitize(query)
}

/// The body with the values of secret fields redacted, if it is JSON.
pub fn sanitize_body(body: &str, content_type: Option<&str>, passthrough_keys: &KeySet) -> (r:
    String)
    ensures
        r@ == body::sanitized_body(body@, text::optional_str(content_type), passthrough_keys@),
        body::reads_back_clean(body@, text::optional_str(content_type), passthrough_keys@, r@),
{
    BodySanitizer::new(passthrough_keys.clone()).sanitize(body, content_type)
}

/// Makes the sanitizer that a configuration asks for.
pub struct SanitizerFactory;

impl SanitizerFactory {
    /// The sanitizer that leaves alone the keys which the configuration exempts.
    pub fn from_config(config: &Config) -> (r: RecordSanitizer)
        ensures
            r.exempt() == config.passthrough_keys@,
    {
        RecordSanitizer::new(config.passthrough_keys.clone())
    }
}

/// The request that a record is sent as under a configuration.
pub fn sanitize_record(record: ReplayRecord, config: &Config, base_url: &str) -> (r: Result<
    SanitizedReplayRecord,
    TrafficReplayerError,
>)
    requires
        record_headers(record).len() <= headers::MAX_HEADER_NAMES,
    ensures
        is_sanitized_as(record, base_url@, config.passthrough_keys@, r),
        r is Ok ==> sends_clean_json(record, config.passthrough_keys@),
{
    SanitizerFactory::from_config(config).sanitize(record, base_url)
}

/// Two bodies are sent as the same body: they are the same, or both are JSON, not
/// base64, and differ in nothing but the values of secret fields.
pub open spec fn same_but_secret_body(
    a: ReplayRecord,
    b: ReplayRecord,
    exempt: Set<Seq<char>>,
) -> bool {
    match (text::optional_text(a.body), text::optional_text(b.body)) {
        (None, None) => true,
        (Some(x), Some(y)) => x == y || {
            &&& !is_base64(a)
            &&& body::is_json_type(text::optional_text(a.content_type))
            &&& json::parsed_json(x) matches Some(s)
            &&& json::parsed_json(y) matches Some(t)
            &&& body::same_but_secret_fields(s, t, exempt)
        },
        _ => false,
    }
}

/// Two queries are the same but for the values of sensitive parameters, or both are
/// missing.
pub open spec fn same_but_secret_query(
    a: ReplayRecord,
    b: ReplayRecord,
    exempt: Set<Seq<char>>,
) -> bool {
    match (text::optional_text(a.query), text::optional_text(b.query)) {
        (None, None) => true,
        (Some(p), Some(q)) => query::same_but_secret_pairs(p, q, exempt),
        _ => false,
    }
}

/// Two records differ in nothing that is sent but in the values of secret headers,
/// sensitive query parameters and secret JSON fields.
pub open spec fn differ_only_in_secrets(
    a: ReplayRecord,
    b: ReplayRecord,
    exempt: Set<Seq<char>>,
) -> bool {
    &&& a.method@ == b.method@
    &&& a.path@ == b.path@
    &&& text::optional_text(a.content_type) == text::optional_text(b.content_type)
    &&& text::optional_text(a.body_encoding) == text::optional_text(b.body_encoding)
    &&& removal::same_but_secret_headers(record_headers(a), record_headers(b), exempt)
    &&& same_but_secret_query(a, b, exempt)
    &&& same_but_secret_body(a, b, exempt)
}

/// Two results are the same: equal requests, or errors with the same words.
pub open spec fn same_result(
    a: Result<SanitizedReplayRecord, TrafficReplayerError>,
    b: Result<SanitizedReplayRecord, TrafficReplayerError>,
) -> bool {
    match (a, b) {
        (Ok(s), Ok(t)) => {
            &&& s.method@ == t.method@
            &&& s.url@ == t.url@
            &&& headers::header_contents(s.headers) == headers::header_contents(t.headers)
            &&& models::optional_bytes(s.body) == models::optional_bytes(t.body)
            &&& text::optional_text(s.content_type) == text::optional_text(t.content_type)
        },
        (Err(e), Err(f)) => e.shown() == f.shown(),
        _ => false,
    }
}

/// Nothing of a secret value reaches the result: records that differ only in secrets are
/// sent as the same request.
pub proof fn secrets_do_not_count(
    a: ReplayRecord,
    b: ReplayRecord,
    base_url: Seq<char>,
    exempt: Set<Seq<char>>,
    of_a: Result<SanitizedReplayRecord, TrafficReplayerError>,
    of_b: Result<SanitizedReplayRecord, TrafficReplayerError>,
)
    requires
        differ_only_in_secrets(a, b, exempt),
        is_sanitized_as(a, base_url, exempt, of_a),
        is_sanitized_as(b, base_url, exempt, of_b),
    ensures
        same_result(of_a, of_b),
        !is_base64(a) ==> of_a is Ok && of_b is Ok,
{
    removal::secret_headers_do_not_count(record_headers(a), record_headers(b), exempt);
    if let (Some(p), Some(q)) = (text::optional_text(a.query), text::optional_text(b.query)) {
        query::secret_pairs_do_not_count(p, q, exempt);
    }
    if let (Some(x), Some(y)) = (text::optional_text(a.body), text::optional_text(b.body)) {
        if x != y {
            let s = json::parsed_json(x)->Some_0;
            let t = json::parsed_json(y)->Some_0;
            body::secret_fields_do_not_count(s, t, exempt);
        }
    }
    assert(record_body(a, exempt) == record_body(b, exempt));
}

/// Sanitizers that leave the same keys alone agree: what they make of a record is the
/// same.
pub proof fn same_keys_give_the_same_result(
    record: ReplayRecord,
    base_url: Seq<char>,
    exempt: Set<Seq<char>>,
    one: Result<SanitizedReplayRecord, TrafficReplayerError>,
    other: Result<SanitizedReplayRecord, TrafficReplayerError>,
)
    requires
        is_sanitized_as(record, base_url, exempt, one),
        is_sanitized_as(record, base_url, exempt, other),
    ensures
        same_result(one, other),
{
}

/// An exempt key is left alone everywhere: as a header, as a query parameter and as a
/// field of a JSON object.
pub proof fn exempt_key_is_left_alone(
    key: Seq<char>,
    exempt: Set<Seq<char>>,
    headers: Seq<HeaderEntry>,
    i: int,
    pair: Seq<char>,
    fields: Map<Seq<char>, json::Json>,
)
    requires
        exempt.contains(text::lowercase(key)),
        0 <= i < headers.len(),
        headers[i].0 == key,
        query::pair_key(pair) == key,
        fields.contains_key(key),
    ensures
        removal::kept_headers(headers, exempt).contains(headers[i]),
        query::sanitized_pair(pair, exempt) == pair,
        body::redacted(json::Json::Object(fields), exempt)->Object_0[key] == fields[key],
{
    removal::other_headers_are_kept(headers, exempt, i);
    body::exempt_field_is_kept(fields, key, exempt);
}

} // verus!
