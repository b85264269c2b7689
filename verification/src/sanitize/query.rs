//! Query parameters.

use vstd::prelude::*;

use crate::keys::KeySet;
use crate::sanitize::Sanitizer;
use crate::text;

verus! {

/// The query parameters whose values are redacted.
pub open spec fn is_denied_parameter(lower: Seq<char>) -> bool {
    ||| lower == "email"@
    ||| lower == "phone"@
    ||| lower == "token"@
    ||| lower == "session"@
    ||| lower == "ssn"@
    ||| lower == "password"@
    ||| lower == "auth"@
    ||| lower == "key"@
}

fn denied_parameter(lower: &str) -> (r: bool)
    ensures
        r == is_denied_parameter(lower@),
{
    text::same_text(lower, "email") || text::same_text(lower, "phone") || text::same_text(
        lower,
        "token",
    ) || text::same_text(lower, "session") || text::same_text(lower, "ssn") || text::same_text(
        lower,
        "password",
    ) || text::same_text(lower, "auth") || text::same_text(lower, "key")
}

/// Whether a query begins with a question mark.
pub open spec fn is_marked(query: Seq<char>) -> bool {
    query.len() > 0 && query[0] == '?'
}

/// The query behind its question mark, if it has one.
pub open spec fn unmarked(query: Seq<char>) -> Seq<char> {
    if is_marked(query) {
        query.skip(1)
    } else {
        query
    }
}

/// The key of a `key=value` pair; a pair without `=` is all key.
pub open spec fn pair_key(pair: Seq<char>) -> Seq<char> {
    pair.take(text::first_of(pair, '=') as int)
}

/// Whether the value of a pair has to go: the key is on the list and not exempt.
pub open spec fn is_secret_pair(pair: Seq<char>, exempt: Set<Seq<char>>) -> bool {
    let lower = text::lowercase(pair_key(pair));
    is_denied_parameter(lower) && !exempt.contains(lower)
}

/// A pair as it is sent.
pub open spec fn sanitized_pair(pair: Seq<char>, exempt: Set<Seq<char>>) -> Seq<char> {
    if is_secret_pair(pair, exempt) {
        pair_key(pair) + "=[REDACTED]"@
    } else {
        pair
    }
}

/// The pairs of a query, in their order.
pub open spec fn query_pairs(query: Seq<char>) -> Seq<Seq<char>> {
    text::split(unmarked(query), '&')
}

/// A list of pairs as it is sent.
pub open spec fn sanitized_pairs(pairs: Seq<Seq<char>>, exempt: Set<Seq<char>>) -> Seq<Seq<char>> {
    pairs.map_values(|p: Seq<char>| sanitized_pair(p, exempt))
}

/// A query as it is sent.
pub open spec fn sanitized_query(query: Seq<char>, exempt: Set<Seq<char>>) -> Seq<char> {
    if unmarked(query).len() == 0 {
        query
    } else {
        let clean = text::join(sanitized_pairs(query_pairs(query), exempt), '&');
        if is_marked(query) {
            seq!['?'] + clean
        } else {
            clean
        }
    }
}

/// Redacts the values of sensitive query parameters.
pub struct QuerySanitizer {
    passthrough_keys: KeySet,
}

impl Sanitizer for QuerySanitizer {

}

impl QuerySanitizer {
    /// The keys that are left alone.
    pub closed spec fn exempt(&self) -> Set<Seq<char>> {
        self.passthrough_keys@
    }

    /// A sanitizer that leaves these keys alone, which are in lower case.
    pub fn new(passthrough_keys: KeySet) -> (r: Self)
        ensures
            r.exempt() == passthrough_keys@,
    {
        QuerySanitizer { passthrough_keys }
    }

    fn sanitize_pair(&self, pair: &str) -> (r: String)
        ensures
            r@ == sanitized_pair(pair@, self.exempt()),
    {
        let at: usize = text::find_char(pair, '=');
        let mut key = pair.substring_char(0, at).to_owned();
        assert(key@ =~= pair_key(pair@));
        let lower = key.as_str().to_lowercase();
        if !self.passthrough_keys.contains(lower.as_str()) && denied_parameter(lower.as_str()) {
            key.append("=[REDACTED]");
            key
        } else {
            pair.to_owned()
        }
    }

    /// The query with the values of sensitive parameters redacted.
    pub fn sanitize(&self, query: &str) -> (r: String)
        ensures
            r@ == sanitized_query(query@, self.exempt()),
    {
        let n: usize = query.unicode_len();
        let marked = n > 0 && query.get_char(0) == '?';
        let raw = if marked {
            query.substring_char(1, n).to_owned()
        } else {
            query.to_owned()
        };
        assert(raw@ =~= unmarked(query@));
        if raw.as_str().unicode_len() == 0 {
            return query.to_owned();
        }
        let pairs = text::split_text(raw.as_str(), '&');
        let ghost whole = text::texts(pairs@);
        let mut clean: Vec<String> = Vec::new();
        let mut i: usize = 0;
        while i < pairs.len()
            invariant
                whole == text::texts(pairs@),
                i <= pairs@.len(),
                text::texts(clean@) == sanitized_pairs(whole.take(i as int), self.exempt()),
            decreases pairs@.len() - i,
        {
            let pair = self.sanitize_pair(pairs[i].as_str());
            proof {
                assert(whole.take(i + 1) =~= whole.take(i as int).push(whole[i as int]));
                assert(text::texts(clean@.push(pair)) =~= text::texts(clean@).push(pair@));
                assert(sanitized_pairs(whole.take(i + 1), self.exempt()) =~= sanitized_pairs(
                    whole.take(i as int),
                    self.exempt(),
                ).push(pair@));
            }
            clean.push(pair);
            i += 1;
        }
        assert(whole.take(whole.len() as int) =~= whole);
        proof {
            reveal_strlit("&");
            reveal_strlit("?");
        }
        let joined = text::join_texts(&clean, "&");
        if marked {
            let mut r = String::from_str("?");
            r.append(joined.as_str());
            assert(r@ =~= seq!['?'] + joined@);
            r
        } else {
            joined
        }
    }
}

/// A sensitive parameter has a name.
proof fn secret_pair_has_a_key(pair: Seq<char>, exempt: Set<Seq<char>>)
    requires
        is_secret_pair(pair, exempt),
    ensures
        pair_key(pair).len() > 0,
{
    reveal_strlit("email");
    reveal_strlit("phone");
    reveal_strlit("token");
    reveal_strlit("session");
    reveal_strlit("ssn");
    reveal_strlit("password");
    reveal_strlit("auth");
    reveal_strlit("key");
    if pair_key(pair).len() == 0 {
        assert(text::lowercase(pair_key(pair)).len() == 0);
    }
}

/// A sanitized pair keeps its key and its first character, holds no `&` and is left as
/// it is when it is sanitized again.
proof fn sanitized_pair_is_stable(pair: Seq<char>, exempt: Set<Seq<char>>)
    requires
        !pair.contains('&'),
    ensures
        pair_key(sanitized_pair(pair, exempt)) == pair_key(pair),
        !sanitized_pair(pair, exempt).contains('&'),
        sanitized_pair(sanitized_pair(pair, exempt), exempt) == sanitized_pair(pair, exempt),
        pair.len() > 0 <==> sanitized_pair(pair, exempt).len() > 0,
        pair.len() > 0 ==> sanitized_pair(pair, exempt)[0] == pair[0],
{
    if is_secret_pair(pair, exempt) {
        let key = pair_key(pair);
        let clean = key + "=[REDACTED]"@;
        secret_pair_has_a_key(pair, exempt);
        reveal_strlit("=[REDACTED]");
        text::first_of_bounds(pair, '=');
        text::first_of_is(clean, '=', key.len() as int);
        assert(pair_key(clean) =~= key);
        assert(!clean.contains('&')) by {
            assert forall|i: int| 0 <= i < clean.len() implies clean[i] != '&' by {
                if i < key.len() {
                    assert(pair.contains(pair[i]));
                }
            }
        }
    }
}

/// Sanitizing keeps the question mark, the number, the order and the keys of the
/// pairs, and changes the pairs one by one.
pub proof fn sanitizing_goes_pair_by_pair(query: Seq<char>, exempt: Set<Seq<char>>)
    ensures
        is_marked(sanitized_query(query, exempt)) == is_marked(query),
        query_pairs(sanitized_query(query, exempt)) == sanitized_pairs(query_pairs(query), exempt),
        forall|i: int|
            0 <= i < query_pairs(query).len() ==> pair_key(
                #[trigger] query_pairs(sanitized_query(query, exempt))[i],
            ) == pair_key(query_pairs(query)[i]),
        unmarked(query).len() > 0 <==> unmarked(sanitized_query(query, exempt)).len() > 0,
{
    let raw = unmarked(query);
    let pairs = query_pairs(query);
    let clean = sanitized_pairs(pairs, exempt);
    let joined = text::join(clean, '&');
    text::split_pieces(raw, '&');
    assert forall|i: int| 0 <= i < pairs.len() implies !(#[trigger] clean[i]).contains('&')
        && pair_key(clean[i]) == pair_key(pairs[i]) by {
        sanitized_pair_is_stable(pairs[i], exempt);
    }
    text::split_undoes_join(clean, '&');
    if raw.len() == 0 {
        reveal_strlit("=[REDACTED]");
        text::first_of_is(raw, '&', 0);
        assert(pairs =~= seq![raw]);
        if is_secret_pair(raw, exempt) {
            secret_pair_has_a_key(raw, exempt);
        }
        assert(clean =~= pairs);
    } else {
        first_character_is_kept(raw, exempt);
        assert((seq!['?'] + joined).skip(1) =~= joined);
    }
}

/// The first character of the pairs stays where it is.
proof fn first_character_is_kept(raw: Seq<char>, exempt: Set<Seq<char>>)
    requires
        raw.len() > 0,
    ensures
        ({
            let joined = text::join(sanitized_pairs(text::split(raw, '&'), exempt), '&');
            joined.len() > 0 && joined[0] == raw[0]
        }),
{
    let pairs = text::split(raw, '&');
    let clean = sanitized_pairs(pairs, exempt);
    text::split_pieces(raw, '&');
    text::first_of_bounds(raw, '&');
    sanitized_pair_is_stable(pairs[0], exempt);
    if text::first_of(raw, '&') < raw.len() {
        text::split_pieces(raw.skip(text::first_of(raw, '&') as int + 1), '&');
    }
    if pairs.len() == 1 {
        assert(pairs[0] == raw);
    } else {
        assert(clean =~= seq![clean[0]] + clean.drop_first());
        text::join_from_the_front(clean[0], clean.drop_first(), '&');
        if pairs[0].len() > 0 {
            assert(pairs[0][0] == raw[0]);
        }
    }
}

/// Every sensitive parameter of the query that is not exempt reads `key=[REDACTED]`.
pub open spec fn is_clean_query(query: Seq<char>, exempt: Set<Seq<char>>) -> bool {
    forall|i: int|
        0 <= i < query_pairs(query).len() && is_secret_pair(
            #[trigger] query_pairs(query)[i],
            exempt,
        ) ==> query_pairs(query)[i] == pair_key(query_pairs(query)[i]) + "=[REDACTED]"@
}

/// No secret is left in a sanitized query.
pub proof fn sanitized_query_is_clean(query: Seq<char>, exempt: Set<Seq<char>>)
    ensures
        is_clean_query(sanitized_query(query, exempt), exempt),
{
    sanitizing_goes_pair_by_pair(query, exempt);
}

/// A query without sensitive parameters is sent as it is.
pub proof fn harmless_query_is_unchanged(query: Seq<char>, exempt: Set<Seq<char>>)
    requires
        forall|i: int|
            0 <= i < query_pairs(query).len() ==> !is_secret_pair(
                #[trigger] query_pairs(query)[i],
                exempt,
            ),
    ensures
        sanitized_query(query, exempt) == query,
{
    let raw = unmarked(query);
    assert(sanitized_pairs(query_pairs(query), exempt) =~= query_pairs(query));
    text::join_undoes_split(raw, '&');
    if is_marked(query) {
        assert(seq!['?'] + raw =~= query);
    }
}

/// Sanitizing a query twice is the same as sanitizing it once.
pub proof fn sanitizing_a_query_is_idempotent(query: Seq<char>, exempt: Set<Seq<char>>)
    ensures
        sanitized_query(sanitized_query(query, exempt), exempt) == sanitized_query(query, exempt),
{
    let pairs = query_pairs(query);
    let once = sanitized_query(query, exempt);
    sanitizing_goes_pair_by_pair(query, exempt);
    text::split_pieces(unmarked(query), '&');
    assert(sanitized_pairs(query_pairs(once), exempt) =~= query_pairs(once)) by {
        assert forall|i: int| 0 <= i < pairs.len() implies sanitized_pair(
            query_pairs(once)[i],
            exempt,
        ) == query_pairs(once)[i] by {
            sanitized_pair_is_stable(pairs[i], exempt);
        }
    }
    text::join_undoes_split(unmarked(once), '&');
    if is_marked(once) {
        assert(seq!['?'] + unmarked(once) =~= once);
    }
}

/// The case of a parameter's key does not count.
pub proof fn parameter_case_does_not_count(
    key: Seq<char>,
    value: Seq<char>,
    exempt: Set<Seq<char>>,
)
    requires
        vstd::utf8::is_ascii_chars(key),
        !key.contains('='),
    ensures
        is_secret_pair(text::ascii_uppercase(key) + seq!['='] + value, exempt) == is_secret_pair(
            key + seq!['='] + value,
            exempt,
        ),
{
    let upper = text::ascii_uppercase(key);
    text::lowercase_ignores_case(key);
    key_ends_at_the_sign(key, value);
    assert(!upper.contains('=')) by {
        assert forall|i: int| 0 <= i < upper.len() implies upper[i] != '=' by {
            assert(key.contains(key[i]));
        }
    }
    key_ends_at_the_sign(upper, value);
}

/// The key of a pair is what stands before the sign.
proof fn key_ends_at_the_sign(key: Seq<char>, value: Seq<char>)
    requires
        !key.contains('='),
    ensures
        pair_key(key + seq!['='] + value) == key,
{
    let pair = key + seq!['='] + value;
    assert forall|j: int| 0 <= j < key.len() implies pair[j] != '=' by {
        assert(key.contains(key[j]));
    }
    text::first_of_is(pair, '=', key.len() as int);
    assert(pair_key(pair) =~= key);
}

/// The value of a documented parameter is redacted, whatever the case of its key and
/// whatever the value; one without a value gets the redaction for its value.
pub proof fn documented_parameters_are_redacted(
    key: Seq<char>,
    value: Seq<char>,
    exempt: Set<Seq<char>>,
)
    requires
        !key.contains('='),
        ({
            let lower = text::lowercase(key);
            ||| lower == "email"@
            ||| lower == "phone"@
            ||| lower == "token"@
            ||| lower == "session"@
            ||| lower == "ssn"@
            ||| lower == "password"@
            ||| lower == "auth"@
            ||| lower == "key"@
        }),
        !exempt.contains(text::lowercase(key)),
    ensures
        sanitized_pair(key + seq!['='] + value, exempt) == key + "=[REDACTED]"@,
        sanitized_pair(key, exempt) == key + "=[REDACTED]"@,
{
    key_ends_at_the_sign(key, value);
    key_without_the_sign(key);
}

/// Any other parameter, and an exempt one, is sent as it is.
pub proof fn other_parameters_are_unchanged(
    key: Seq<char>,
    value: Seq<char>,
    exempt: Set<Seq<char>>,
)
    requires
        !key.contains('='),
        exempt.contains(text::lowercase(key)) || ({
            let lower = text::lowercase(key);
            &&& lower != "email"@
            &&& lower != "phone"@
            &&& lower != "token"@
            &&& lower != "session"@
            &&& lower != "ssn"@
            &&& lower != "password"@
            &&& lower != "auth"@
            &&& lower != "key"@
        }),
    ensures
        sanitized_pair(key + seq!['='] + value, exempt) == key + seq!['='] + value,
        sanitized_pair(key, exempt) == key,
{
    key_ends_at_the_sign(key, value);
    key_without_the_sign(key);
}

/// A pair without the sign is all key.
proof fn key_without_the_sign(key: Seq<char>)
    requires
        !key.contains('='),
    ensures
        pair_key(key) == key,
{
    assert forall|j: int| 0 <= j < key.len() implies key[j] != '=' by {
        assert(key.contains(key[j]));
    }
    text::first_of_is(key, '=', key.len() as int);
    assert(pair_key(key) =~= key);
}

/// A query of pairs between ampersands is sent as those pairs between ampersands, each
/// as it is sent by itself, in the same order; a question mark before them stays.
pub proof fn pairs_are_sent_between_ampersands(pairs: Seq<Seq<char>>, exempt: Set<Seq<char>>)
    requires
        pairs.len() > 0,
        forall|i: int| 0 <= i < pairs.len() ==> !(#[trigger] pairs[i]).contains('&'),
    ensures
        ({
            let raw = text::join(pairs, '&');
            let clean = text::join(
                Seq::new(pairs.len(), |i: int| sanitized_pair(pairs[i], exempt)),
                '&',
            );
            &&& sanitized_query(seq!['?'] + raw, exempt) == seq!['?'] + clean
            &&& raw.len() == 0 || raw[0] != '?' ==> sanitized_query(raw, exempt) == clean
        }),
{
    let raw = text::join(pairs, '&');
    let marked = seq!['?'] + raw;
    let clean = Seq::new(pairs.len(), |i: int| sanitized_pair(pairs[i], exempt));
    text::split_undoes_join(pairs, '&');
    assert(unmarked(marked) =~= raw);
    assert(sanitized_pairs(pairs, exempt) =~= clean);
    if raw.len() == 0 {
        text::first_of_is(raw, '&', 0);
        assert(pairs =~= seq![raw]);
        if is_secret_pair(raw, exempt) {
            secret_pair_has_a_key(raw, exempt);
        }
        assert(text::join(clean, '&') =~= raw);
    }
}

/// Two queries are the same but for the values of sensitive parameters.
pub open spec fn same_but_secret_pairs(
    a: Seq<char>,
    b: Seq<char>,
    exempt: Set<Seq<char>>,
) -> bool {
    &&& is_marked(a) == is_marked(b)
    &&& query_pairs(a).len() == query_pairs(b).len()
    &&& forall|i: int|
        0 <= i < query_pairs(a).len() ==> {
            let p = #[trigger] query_pairs(a)[i];
            let q = query_pairs(b)[i];
            p == q || (is_secret_pair(p, exempt) && pair_key(p) == pair_key(q))
        }
}

/// The values of sensitive parameters do not count: queries that differ in nothing else
/// are sent as the same query.
pub proof fn secret_pairs_do_not_count(a: Seq<char>, b: Seq<char>, exempt: Set<Seq<char>>)
    requires
        same_but_secret_pairs(a, b, exempt),
    ensures
        sanitized_query(a, exempt) == sanitized_query(b, exempt),
{
    assert(sanitized_pairs(query_pairs(a), exempt) =~= sanitized_pairs(query_pairs(b), exempt));
    if unmarked(a).len() == 0 {
        empty_query_stays_alone(a, b, exempt);
    } else if unmarked(b).len() == 0 {
        assert(same_but_secret_pairs(b, a, exempt));
        empty_query_stays_alone(b, a, exempt);
    }
}

/// Nothing but an empty query is the same as an empty query but for secrets.
proof fn empty_query_stays_alone(a: Seq<char>, b: Seq<char>, exempt: Set<Seq<char>>)
    requires
        same_but_secret_pairs(a, b, exempt),
        unmarked(a).len() == 0,
    ensures
        a == b,
{
    let none = unmarked(a);
    text::first_of_is(none, '&', 0);
    assert(query_pairs(a) =~= seq![none]);
    assert(query_pairs(a)[0] == none);
    if is_secret_pair(none, exempt) {
        secret_pair_has_a_key(none, exempt);
    }
    assert(query_pairs(b) =~= seq![none]);
    text::join_undoes_split(unmarked(b), '&');
    assert(a =~= b);
}

} // verus!
