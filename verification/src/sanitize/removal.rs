//! Headers: which are removed, and which are sent.

use indexmap::IndexMap;
use reqwest::header::{HeaderMap, HeaderName, HeaderValue};
use vstd::prelude::*;

use crate::headers;
use crate::headers::HeaderEntry;
use crate::keys::KeySet;
use crate::sanitize::Sanitizer;
use crate::text;

verus! {

/// The headers that are not sent.
pub open spec fn is_denied_header(lower: Seq<char>) -> bool {
    ||| lower == "authorization"@
    ||| lower == "cookie"@
    ||| lower == "set-cookie"@
    ||| lower == "x-api-key"@
    ||| lower == "proxy-authorization"@
}

fn denied_header(lower: &str) -> (r: bool)
    ensures
        r == is_denied_header(lower@),
{
    text::same_text(lower, "authorization") || text::same_text(lower, "cookie") || text::same_text(
        lower,
        "set-cookie",
    ) || text::same_text(lower, "x-api-key") || text::same_text(lower, "proxy-authorization")
}

/// Whether a header has to go: its name is on the list and not exempt.
pub open spec fn is_secret_header(name: Seq<char>, exempt: Set<Seq<char>>) -> bool {
    is_denied_header(text::lowercase(name)) && !exempt.contains(text::lowercase(name))
}

/// The headers that are not secret, in their order and with all their values.
pub open spec fn kept_headers(entries: Seq<HeaderEntry>, exempt: Set<Seq<char>>) -> Seq<HeaderEntry>
    decreases entries.len(),
{
    if entries.len() == 0 {
        Seq::empty()
    } else if is_secret_header(entries.last().0, exempt) {
        kept_headers(entries.drop_last(), exempt)
    } else {
        kept_headers(entries.drop_last(), exempt).push(entries.last())
    }
}

/// What is kept was there before, and nothing secret is kept.
pub proof fn no_secret_header_is_kept(
    entries: Seq<HeaderEntry>,
    exempt: Set<Seq<char>>,
    i: int,
)
    requires
        0 <= i < kept_headers(entries, exempt).len(),
    ensures
        !is_secret_header(kept_headers(entries, exempt)[i].0, exempt),
        entries.contains(kept_headers(entries, exempt)[i]),
    decreases entries.len(),
{
    let before = entries.drop_last();
    let last = entries.len() - 1;
    if i < kept_headers(before, exempt).len() {
        no_secret_header_is_kept(before, exempt, i);
        let k = choose|k: int| 0 <= k < before.len() && before[k] == kept_headers(before, exempt)[i];
        assert(entries[k] == before[k]);
    } else {
        assert(entries[last] == kept_headers(entries, exempt)[i]);
    }
}

/// A header that is not secret is kept.
pub proof fn other_headers_are_kept(entries: Seq<HeaderEntry>, exempt: Set<Seq<char>>, i: int)
    requires
        0 <= i < entries.len(),
        !is_secret_header(entries[i].0, exempt),
    ensures
        kept_headers(entries, exempt).contains(entries[i]),
    decreases entries.len(),
{
    let before = entries.drop_last();
    let kept = kept_headers(entries, exempt);
    if i < before.len() {
        other_headers_are_kept(before, exempt, i);
        let k = choose|k: int|
            0 <= k < kept_headers(before, exempt).len() && kept_headers(before, exempt)[k]
                == before[i];
        assert(kept[k] == entries[i]);
    } else {
        assert(kept[kept.len() - 1] == entries[i]);
    }
}

/// Removes sensitive headers.
pub struct HeaderSanitizer {
    passthrough_keys: KeySet,
}

impl Sanitizer for HeaderSanitizer {

}

impl HeaderSanitizer {
    /// The keys that are left alone.
    pub closed spec fn exempt(&self) -> Set<Seq<char>> {
        self.passthrough_keys@
    }

    /// A sanitizer that leaves these keys alone, which are in lower case.
    pub fn new(passthrough_keys: KeySet) -> (r: Self)
        ensures
            r.exempt() == passthrough_keys@,
    {
        HeaderSanitizer { passthrough_keys }
    }

    /// The headers without the sensitive ones.
    pub fn sanitize(&self, headers: &IndexMap<String, Vec<String>>) -> (r: IndexMap<
        String,
        Vec<String>,
    >)
        ensures
            headers::header_entries(r) == kept_headers(
                headers::header_entries(*headers),
                self.exempt(),
            ),
    {
        let ghost entries = headers::header_entries(*headers);
        let mut out = headers::no_headers();
        let n: usize = headers::header_count(headers);
        let mut i: usize = 0;
        assert(entries.take(0) =~= Seq::<HeaderEntry>::empty());
        while i < n
            invariant
                entries == headers::header_entries(*headers),
                n == entries.len(),
                i <= n,
                headers::header_entries(out) == kept_headers(
                    entries.take(i as int),
                    self.exempt(),
                ),
            decreases n - i,
        {
            if let Some((name, values)) = headers::header_at(headers, i) {
                let ghost done = entries.take(i as int);
                proof {
                    assert(entries.take(i + 1).drop_last() =~= done);
                    assert(entries.take(i + 1).last() == entries[i as int]);
                }
                let lower = name.as_str().to_lowercase();
                if self.passthrough_keys.contains(lower.as_str()) || !denied_header(
                    lower.as_str(),
                ) {
                    proof {
                        let kept = headers::header_entries(out);
                        if headers::has_name(kept, name@) {
                            let k = choose|k: int| 0 <= k < kept.len() && (#[trigger] kept[k]).0
                                == name@;
                            no_secret_header_is_kept(done, self.exempt(), k);
                            let j = choose|j: int| 0 <= j < done.len() && done[j] == kept[k];
                            assert(entries[j].0 == name@);
                        }
                    }
                    headers::insert_header(&mut out, name.clone(), text::copy_texts(values));
                }
            }
            i += 1;
        }
        assert(entries.take(n as int) =~= entries);
        out
    }
}

/// The headers that the HTTP client sets by itself and that are not handed to it.
pub open spec fn is_hop_header(lower: Seq<char>) -> bool {
    ||| lower == "host"@
    ||| lower == "content-length"@
    ||| lower == "connection"@
    ||| lower == "transfer-encoding"@
    ||| lower == "keep-alive"@
}

fn hop_header(lower: &str) -> (r: bool)
    ensures
        r == is_hop_header(lower@),
{
    text::same_text(lower, "host") || text::same_text(lower, "content-length") || text::same_text(
        lower,
        "connection",
    ) || text::same_text(lower, "transfer-encoding") || text::same_text(lower, "keep-alive")
}

/// A header map after the values of a header that can be sent are appended.
pub open spec fn with_values(
    contents: Map<Seq<char>, Seq<Seq<char>>>,
    name: Seq<char>,
    values: Seq<Seq<char>>,
) -> Map<Seq<char>, Seq<Seq<char>>>
    decreases values.len(),
{
    if values.len() == 0 {
        contents
    } else {
        let before = with_values(contents, name, values.drop_last());
        if headers::is_header_value(values.last()) {
            headers::appended(before, name, values.last())
        } else {
            before
        }
    }
}

/// Whether a header is handed to the HTTP client: its lower-case name can be sent and is
/// not one of those that the client sets.
pub open spec fn is_sent_name(name: Seq<char>) -> bool {
    !is_hop_header(text::lowercase(name)) && headers::is_header_name(text::lowercase(name))
}

/// The header map that a list of headers gives.
pub open spec fn sent_headers(entries: Seq<HeaderEntry>) -> Map<Seq<char>, Seq<Seq<char>>>
    decreases entries.len(),
{
    if entries.len() == 0 {
        Map::empty()
    } else {
        let before = sent_headers(entries.drop_last());
        if is_sent_name(entries.last().0) {
            with_values(before, text::lowercase(entries.last().0), entries.last().1)
        } else {
            before
        }
    }
}

/// Appending the values of one header adds at most its name, and adds them to no other
/// name.
proof fn with_values_names(
    contents: Map<Seq<char>, Seq<Seq<char>>>,
    name: Seq<char>,
    values: Seq<Seq<char>>,
)
    ensures
        with_values(contents, name, values).dom() == contents.dom() || with_values(
            contents,
            name,
            values,
        ).dom() == contents.dom().insert(name),
        forall|k: Seq<char>|
            k != name && contents.contains_key(k) ==> #[trigger] with_values(
                contents,
                name,
                values,
            )[k] == contents[k],
    decreases values.len(),
{
    if values.len() > 0 {
        with_values_names(contents, name, values.drop_last());
        let after = with_values(contents, name, values);
        assert(after.dom() =~= contents.dom() || after.dom() =~= contents.dom().insert(name));
    }
}

/// No header that is sent is secret, and none is one that the HTTP client sets.
pub proof fn no_secret_header_is_sent(
    entries: Seq<HeaderEntry>,
    exempt: Set<Seq<char>>,
    name: Seq<char>,
)
    requires
        sent_headers(kept_headers(entries, exempt)).contains_key(name),
    ensures
        is_denied_header(name) ==> exempt.contains(name),
        !is_hop_header(name),
        headers::is_header_name(name),
{
    let kept = kept_headers(entries, exempt);
    let i = sent_name_comes_from(kept, name);
    no_secret_header_is_kept(entries, exempt, i);
}

/// A name in the header map is the lower-case form of a name in the list.
proof fn sent_name_comes_from(entries: Seq<HeaderEntry>, name: Seq<char>) -> (i: int)
    requires
        sent_headers(entries).contains_key(name),
    ensures
        0 <= i < entries.len(),
        name == text::lowercase(entries[i].0),
        is_sent_name(entries[i].0),
    decreases entries.len(),
{
    let before = entries.drop_last();
    let last = entries.last();
    with_values_names(sent_headers(before), text::lowercase(last.0), last.1);
    if sent_headers(before).contains_key(name) {
        let i = sent_name_comes_from(before, name);
        assert(entries[i] == before[i]);
        i
    } else {
        entries.len() - 1
    }
}

/// A text without letters in upper case is its own lower-case form.
proof fn lowercase_of_lowercase(s: Seq<char>)
    requires
        forall|i: int| 0 <= i < s.len() ==> !text::is_upper_letter(#[trigger] s[i]),
    ensures
        text::ascii_lowercase(s) == s,
{
    assert(text::ascii_lowercase(s) =~= s);
}

/// Appends the values of one header that can be sent; says whether the map took them.
fn append_values(
    map: &mut HeaderMap<HeaderValue>,
    name: &HeaderName,
    values: &Vec<String>,
) -> (r: bool)
    requires
        headers::header_contents(*old(map)).dom().finite(),
    ensures
        r ==> headers::header_contents(*final(map)) == with_values(
            headers::header_contents(*old(map)),
            headers::header_name_text(*name),
            text::texts(values@),
        ),
        r ==> headers::header_contents(*final(map)).dom().finite(),
        r ==> headers::header_contents(*final(map)).dom().len() <= headers::header_contents(
            *old(map),
        ).dom().len() + 1,
        headers::header_contents(*old(map)).dom().len() < headers::MAX_HEADER_NAMES ==> r,
{
    let ghost start = headers::header_contents(*map);
    let ghost called = headers::header_name_text(*name);
    let ghost all = text::texts(values@);
    let mut i: usize = 0;
    assert(all.take(0) =~= Seq::<Seq<char>>::empty());
    while i < values.len()
        invariant
            i <= values@.len(),
            all == text::texts(values@),
            called == headers::header_name_text(*name),
            start == headers::header_contents(*old(map)),
            start.dom().finite(),
            headers::header_contents(*map) == with_values(start, called, all.take(i as int)),
        decreases values@.len() - i,
    {
        proof {
            assert(all.take(i + 1).drop_last() =~= all.take(i as int));
            assert(all.take(i + 1).last() == values@[i as int]@);
            with_values_names(start, called, all.take(i as int));
        }
        if let Some(value) = headers::header_value(values[i].as_str()) {
            if headers::append_header(map, name, value).is_none() {
                return false;
            }
        }
        i += 1;
    }
    proof {
        assert(all.take(all.len() as int) =~= all);
        with_values_names(start, called, all);
    }
    true
}

/// The header map for a list of headers. A map is sure to take the headers where there
/// are no more of them than [`headers::MAX_HEADER_NAMES`].
pub(crate) fn build_headers(list: &IndexMap<String, Vec<String>>) -> (r: Option<
    HeaderMap<HeaderValue>,
>)
    ensures
        r matches Some(map) ==> headers::header_contents(map) == sent_headers(
            headers::header_entries(*list),
        ),
        headers::header_entries(*list).len() <= headers::MAX_HEADER_NAMES ==> r is Some,
{
    let ghost entries = headers::header_entries(*list);
    let mut map = headers::empty_header_map();
    let n: usize = headers::header_count(list);
    let mut i: usize = 0;
    assert(entries.take(0) =~= Seq::<HeaderEntry>::empty());
    while i < n
        invariant
            entries == headers::header_entries(*list),
            n == entries.len(),
            i <= n,
            headers::header_contents(map) == sent_headers(entries.take(i as int)),
            headers::header_contents(map).dom().finite(),
            headers::header_contents(map).dom().len() <= i,
        decreases n - i,
    {
        if let Some((name, values)) = headers::header_at(list, i) {
            proof {
                assert(entries.take(i + 1).drop_last() =~= entries.take(i as int));
                assert(entries.take(i + 1).last() == entries[i as int]);
            }
            let lower = name.as_str().to_lowercase();
            if !hop_header(lower.as_str()) {
                if let Some(header_name) = headers::header_name(lower.as_str()) {
                    proof {
                        lowercase_of_lowercase(lower@);
                    }
                    if !append_values(&mut map, &header_name, values) {
                        return None;
                    }
                }
            }
        }
        i += 1;
    }
    assert(entries.take(n as int) =~= entries);
    Some(map)
}

/// The case of a header name does not count.
pub proof fn header_case_does_not_count(name: Seq<char>, exempt: Set<Seq<char>>)
    requires
        vstd::utf8::is_ascii_chars(name),
    ensures
        is_secret_header(text::ascii_uppercase(name), exempt) == is_secret_header(name, exempt),
{
    text::lowercase_ignores_case(name);
}

/// Two header lists are the same but for the values of secret headers.
pub open spec fn same_but_secret_headers(
    a: Seq<HeaderEntry>,
    b: Seq<HeaderEntry>,
    exempt: Set<Seq<char>>,
) -> bool {
    &&& a.len() == b.len()
    &&& forall|i: int|
        0 <= i < a.len() ==> (#[trigger] a[i]).0 == b[i].0 && (a[i].1 == b[i].1
            || is_secret_header(a[i].0, exempt))
}

/// The values of secret headers do not count: of lists that differ in nothing else the
/// same headers are kept.
pub proof fn secret_headers_do_not_count(
    a: Seq<HeaderEntry>,
    b: Seq<HeaderEntry>,
    exempt: Set<Seq<char>>,
)
    requires
        same_but_secret_headers(a, b, exempt),
    ensures
        kept_headers(a, exempt) == kept_headers(b, exempt),
    decreases a.len(),
{
    if a.len() > 0 {
        let n = a.len() - 1;
        assert forall|i: int| 0 <= i < n implies (#[trigger] a.drop_last()[i]).0
            == b.drop_last()[i].0 && (a.drop_last()[i].1 == b.drop_last()[i].1
            || is_secret_header(a.drop_last()[i].0, exempt)) by {
            assert(a[i].0 == b[i].0);
        }
        secret_headers_do_not_count(a.drop_last(), b.drop_last(), exempt);
        assert(a[n].0 == b[n].0);
    }
}

/// A value that can be sent, of a header that can be sent, is among the values that are
/// sent under the lower-case name.
pub proof fn sendable_value_is_sent(entries: Seq<HeaderEntry>, i: int, j: int)
    requires
        0 <= i < entries.len(),
        is_sent_name(entries[i].0),
        0 <= j < entries[i].1.len(),
        headers::is_header_value(entries[i].1[j]),
    ensures
        sent_headers(entries).contains_key(text::lowercase(entries[i].0)),
        sent_headers(entries)[text::lowercase(entries[i].0)].contains(entries[i].1[j]),
    decreases entries.len(),
{
    let name = text::lowercase(entries[i].0);
    let value = entries[i].1[j];
    let before = sent_headers(entries.drop_last());
    let last = entries.last();
    if i < entries.len() - 1 {
        assert(entries.drop_last()[i] == entries[i]);
        sendable_value_is_sent(entries.drop_last(), i, j);
        values_stay(before, text::lowercase(last.0), last.1, name, value);
    } else {
        value_is_appended(before, name, last.1, j);
    }
}

/// What is sent under a name, of the headers of a record: the values that can be sent of
/// all headers with that name in any case of its letters, in their order. Nothing is sent
/// under a name that cannot be sent, under one that the HTTP client sets, nor under one
/// of a credential that is not exempt.
pub proof fn what_is_sent_under_a_name(
    entries: Seq<HeaderEntry>,
    exempt: Set<Seq<char>>,
    name: Seq<char>,
)
    ensures
        ({
            let sent = sent_headers(kept_headers(entries, exempt));
            let values = entries.filter(
                |e: HeaderEntry| text::lowercase(e.0) == name,
            ).map_values(
                |e: HeaderEntry| e.1.filter(|v: Seq<char>| headers::is_header_value(v)),
            ).flatten_alt();
            let credential = name == "authorization"@ || name == "cookie"@ || name
                == "set-cookie"@ || name == "x-api-key"@ || name == "proxy-authorization"@;
            let connection = name == "host"@ || name == "content-length"@ || name
                == "connection"@ || name == "transfer-encoding"@ || name == "keep-alive"@;
            if headers::is_header_name(name) && !connection && (!credential || exempt.contains(
                name,
            )) {
                &&& sent.contains_key(name) <==> values.len() > 0
                &&& sent.contains_key(name) ==> sent[name] == values
            } else {
                !sent.contains_key(name)
            }
        }),
    decreases entries.len(),
{
    reveal(Seq::filter);
    if entries.len() > 0 {
        let before = entries.drop_last();
        let last = entries.last();
        what_is_sent_under_a_name(before, exempt, name);
        let named = |e: HeaderEntry| text::lowercase(e.0) == name;
        let sendable = |e: HeaderEntry| e.1.filter(|v: Seq<char>| headers::is_header_value(v));
        let groups = entries.filter(named).map_values(sendable);
        if named(last) {
            assert(groups.drop_last() =~= before.filter(named).map_values(sendable));
            assert(groups.last() == sendable(last));
        }
        let kept = kept_headers(entries, exempt);
        if !is_secret_header(last.0, exempt) {
            assert(kept.drop_last() =~= kept_headers(before, exempt));
            values_under_names(
                sent_headers(kept_headers(before, exempt)),
                text::lowercase(last.0),
                last.1,
                name,
            );
        }
    }
}

/// What appending the values of one header leaves under each name.
proof fn values_under_names(
    contents: Map<Seq<char>, Seq<Seq<char>>>,
    name: Seq<char>,
    values: Seq<Seq<char>>,
    other: Seq<char>,
)
    ensures
        ({
            let after = with_values(contents, name, values);
            let sendable = values.filter(|v: Seq<char>| headers::is_header_value(v));
            if other == name {
                &&& after.contains_key(name) <==> contents.contains_key(name) || sendable.len() > 0
                &&& contents.contains_key(name) ==> after[name] == contents[name] + sendable
                &&& !contents.contains_key(name) && sendable.len() > 0 ==> after[name] == sendable
            } else {
                &&& after.contains_key(other) <==> contents.contains_key(other)
                &&& contents.contains_key(other) ==> after[other] == contents[other]
            }
        }),
    decreases values.len(),
{
    reveal(Seq::filter);
    if values.len() > 0 {
        values_under_names(contents, name, values.drop_last(), other);
    }
}

/// Every header of a record whose lower-case name can be sent, and is neither the name of
/// a credential nor one that the HTTP client sets, is sent with each of its values that
/// can be sent.
pub proof fn other_headers_are_sent(
    entries: Seq<HeaderEntry>,
    exempt: Set<Seq<char>>,
    i: int,
    j: int,
)
    requires
        0 <= i < entries.len(),
        ({
            let lower = text::lowercase(entries[i].0);
            &&& headers::is_header_name(lower)
            &&& lower != "authorization"@
            &&& lower != "cookie"@
            &&& lower != "set-cookie"@
            &&& lower != "x-api-key"@
            &&& lower != "proxy-authorization"@
            &&& lower != "host"@
            &&& lower != "content-length"@
            &&& lower != "connection"@
            &&& lower != "transfer-encoding"@
            &&& lower != "keep-alive"@
        }),
        0 <= j < entries[i].1.len(),
        headers::is_header_value(entries[i].1[j]),
    ensures
        ({
            let sent = sent_headers(kept_headers(entries, exempt));
            let lower = text::lowercase(entries[i].0);
            sent.contains_key(lower) && sent[lower].contains(entries[i].1[j])
        }),
{
    other_headers_are_kept(entries, exempt, i);
    let kept = kept_headers(entries, exempt);
    let k = choose|k: int| 0 <= k < kept.len() && kept[k] == entries[i];
    sendable_value_is_sent(kept, k, j);
}

/// Which headers are kept, and in which order: those whose lower-case name is not that of
/// a credential, or is exempt.
pub proof fn credentials_are_removed(entries: Seq<HeaderEntry>, exempt: Set<Seq<char>>)
    ensures
        kept_headers(entries, exempt) == entries.filter(
            |e: HeaderEntry|
                ({
                    let lower = text::lowercase(e.0);
                    exempt.contains(lower) || (lower != "authorization"@ && lower != "cookie"@
                        && lower != "set-cookie"@ && lower != "x-api-key"@ && lower
                        != "proxy-authorization"@)
                }),
        ),
    decreases entries.len(),
{
    reveal(Seq::filter);
    if entries.len() > 0 {
        credentials_are_removed(entries.drop_last(), exempt);
    }
}

/// Appending values takes none away.
proof fn values_stay(
    contents: Map<Seq<char>, Seq<Seq<char>>>,
    name: Seq<char>,
    values: Seq<Seq<char>>,
    kept: Seq<char>,
    value: Seq<char>,
)
    requires
        contents.contains_key(kept),
        contents[kept].contains(value),
    ensures
        with_values(contents, name, values).contains_key(kept),
        with_values(contents, name, values)[kept].contains(value),
    decreases values.len(),
{
    if values.len() > 0 {
        let before = with_values(contents, name, values.drop_last());
        values_stay(contents, name, values.drop_last(), kept, value);
        let k = choose|k: int| 0 <= k < before[kept].len() && before[kept][k] == value;
        assert(with_values(contents, name, values)[kept][k] == value);
    }
}

/// A value that can be sent is appended.
proof fn value_is_appended(
    contents: Map<Seq<char>, Seq<Seq<char>>>,
    name: Seq<char>,
    values: Seq<Seq<char>>,
    j: int,
)
    requires
        0 <= j < values.len(),
        headers::is_header_value(values[j]),
    ensures
        with_values(contents, name, values).contains_key(name),
        with_values(contents, name, values)[name].contains(values[j]),
    decreases values.len(),
{
    let before = with_values(contents, name, values.drop_last());
    let after = with_values(contents, name, values);
    if j < values.len() - 1 {
        value_is_appended(contents, name, values.drop_last(), j);
        let k = choose|k: int| 0 <= k < before[name].len() && before[name][k] == values[j];
        assert(after[name][k] == values[j]);
    } else {
        assert(after[name][after[name].len() - 1] == values[j]);
    }
}

} // verus!
