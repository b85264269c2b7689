//! Text as a sequence of characters: letter case, searching, splitting, joining and
//! trimming.

use vstd::prelude::*;
use vstd::string::*;
use vstd::utf8::*;

verus! {

// ---- letter case ----

/// One of the letters `A` to `Z`.
pub open spec fn is_upper_letter(c: char) -> bool {
    'A' <= c <= 'Z'
}

/// One of the letters `a` to `z`.
pub open spec fn is_lower_letter(c: char) -> bool {
    'a' <= c <= 'z'
}

/// `s` with the letters `A` to `Z` replaced by `a` to `z`.
pub open spec fn ascii_lowercase(s: Seq<char>) -> Seq<char> {
    s.map_values(|c: char| if is_upper_letter(c) { (c as u8 + 32) as char } else { c })
}

/// `s` with the letters `a` to `z` replaced by `A` to `Z`.
pub open spec fn ascii_uppercase(s: Seq<char>) -> Seq<char> {
    s.map_values(|c: char| if is_lower_letter(c) { (c as u8 - 32) as char } else { c })
}

/// What `str::to_lowercase` makes of a text that holds a character outside ASCII.
pub uninterp spec fn unicode_lowercase(s: Seq<char>) -> Seq<char>;

/// What `str::to_uppercase` makes of a text that holds a character outside ASCII.
pub uninterp spec fn unicode_uppercase(s: Seq<char>) -> Seq<char>;

/// The lowercase equivalent of `s`.
pub open spec fn lowercase(s: Seq<char>) -> Seq<char> {
    if is_ascii_chars(s) {
        ascii_lowercase(s)
    } else {
        unicode_lowercase(s)
    }
}

/// The uppercase equivalent of `s`.
pub open spec fn uppercase(s: Seq<char>) -> Seq<char> {
    if is_ascii_chars(s) {
        ascii_uppercase(s)
    } else {
        unicode_uppercase(s)
    }
}

/// `str::to_lowercase`: on ASCII text the letters `A` to `Z` become `a` to `z` and
/// everything else stays. On other text the Unicode mapping decides, which is only
/// given a name here. The result never holds one of the letters `A` to `Z`.
pub assume_specification[ str::to_lowercase ](s: &str) -> (r: String)
    ensures
        is_ascii_chars(s@) ==> r@ == ascii_lowercase(s@),
        !is_ascii_chars(s@) ==> r@ == unicode_lowercase(s@),
        forall|i: int| 0 <= i < r@.len() ==> !is_upper_letter(#[trigger] r@[i]),
;

/// `str::to_uppercase`: on ASCII text the letters `a` to `z` become `A` to `Z` and
/// everything else stays. On other text the Unicode mapping decides, which is only
/// given a name here.
pub assume_specification[ str::to_uppercase ](s: &str) -> (r: String)
    ensures
        is_ascii_chars(s@) ==> r@ == ascii_uppercase(s@),
        !is_ascii_chars(s@) ==> r@ == unicode_uppercase(s@),
;

/// The case of ASCII letters does not count where a text is put in lower case.
pub proof fn lowercase_ignores_case(s: Seq<char>)
    requires
        is_ascii_chars(s),
    ensures
        lowercase(ascii_uppercase(s)) == lowercase(s),
{
    assert(is_ascii_chars(ascii_uppercase(s)));
    assert(ascii_lowercase(ascii_uppercase(s)) =~= ascii_lowercase(s));
}

/// The case of ASCII letters does not count where a text is put in upper case.
pub proof fn uppercase_ignores_case(s: Seq<char>)
    requires
        is_ascii_chars(s),
    ensures
        uppercase(ascii_lowercase(s)) == uppercase(s),
{
    assert(is_ascii_chars(ascii_lowercase(s)));
    assert(ascii_uppercase(ascii_lowercase(s)) =~= ascii_uppercase(s));
}

/// Putting an ASCII text in lower case, or in upper case, changes the letters of the other
/// case one by one: the two forms of a letter are 32 apart.
pub proof fn letters_change_one_by_one(s: Seq<char>, i: int)
    requires
        is_ascii_chars(s),
        0 <= i < s.len(),
    ensures
        lowercase(s).len() == s.len(),
        uppercase(s).len() == s.len(),
        'A' <= s[i] <= 'Z' ==> lowercase(s)[i] as int == s[i] as int + 32,
        !('A' <= s[i] <= 'Z') ==> lowercase(s)[i] == s[i],
        'a' <= s[i] <= 'z' ==> uppercase(s)[i] as int == s[i] as int - 32,
        !('a' <= s[i] <= 'z') ==> uppercase(s)[i] == s[i],
{
}

/// Putting an ASCII text in upper case twice is the same as doing it once.
pub proof fn uppercase_is_idempotent(s: Seq<char>)
    requires
        is_ascii_chars(s),
    ensures
        uppercase(uppercase(s)) == uppercase(s),
        uppercase(s) == ascii_uppercase(s),
{
    assert(is_ascii_chars(ascii_uppercase(s)));
    assert(ascii_uppercase(ascii_uppercase(s)) =~= ascii_uppercase(s));
}

// ---- comparison and search ----

/// Whether the two texts hold the same characters.
pub fn same_text(a: &str, b: &str) -> (r: bool)
    ensures
        r == (a@ == b@),
{
    proof {
        encode_utf8_decode_utf8(a@);
        encode_utf8_decode_utf8(b@);
    }
    let x = a.as_bytes();
    let y = b.as_bytes();
    if x.len() != y.len() {
        return false;
    }
    let mut i: usize = 0;
    while i < x.len()
        invariant
            x@ == encode_utf8(a@),
            y@ == encode_utf8(b@),
            x@.len() == y@.len(),
            0 <= i <= x@.len(),
            forall|j: int| 0 <= j < i ==> x@[j] == y@[j],
        decreases x@.len() - i,
    {
        if x[i] != y[i] {
            return false;
        }
        i = i + 1;
    }
    assert(x@ =~= y@);
    true
}

/// The characters of `s`, in order.
pub fn chars_of(s: &str) -> (r: Vec<char>)
    ensures
        r@ == s@,
{
    let mut r: Vec<char> = Vec::new();
    for c in it: s.chars()
        invariant
            it.seq() == s@,
            r@ == s@.take(it.index()),
    {
        r.push(c);
        assert(s@.take(it.index() + 1) =~= s@.take(it.index()).push(c));
    }
    assert(s@.take(s@.len() as int) =~= s@);
    r
}

/// `text` begins with `prefix`.
pub open spec fn has_prefix(text: Seq<char>, prefix: Seq<char>) -> bool {
    prefix.len() <= text.len() && text.take(prefix.len() as int) == prefix
}

/// A text begins with a prefix where it is the prefix with something behind it.
pub proof fn prefix_is_the_front(text: Seq<char>, prefix: Seq<char>)
    ensures
        has_prefix(text, prefix) <==> exists|rest: Seq<char>| text == #[trigger] (prefix + rest),
{
    if has_prefix(text, prefix) {
        assert(text =~= prefix + text.skip(prefix.len() as int));
    }
    assert forall|rest: Seq<char>| text == #[trigger] (prefix + rest) implies has_prefix(
        text,
        prefix,
    ) by {
        assert(text.take(prefix.len() as int) =~= prefix);
    }
}

/// Whether `text` begins with `prefix`.
pub fn starts_with(text: &str, prefix: &str) -> (r: bool)
    ensures
        r == has_prefix(text@, prefix@),
{
    let t = chars_of(text);
    let p = chars_of(prefix);
    if p.len() > t.len() {
        return false;
    }
    occurs_at(&t, &p, 0)
}

/// Whether `needle` stands in `hay` from position `at` on.
fn occurs_at(hay: &Vec<char>, needle: &Vec<char>, at: usize) -> (r: bool)
    requires
        at + needle@.len() <= hay@.len(),
    ensures
        r == (hay@.subrange(at as int, at + needle@.len()) == needle@),
{
    let mut i: usize = 0;
    while i < needle.len()
        invariant
            0 <= i <= needle@.len(),
            at + needle.len() <= hay.len(),
            forall|j: int| 0 <= j < i ==> hay@[at + j] == needle@[j],
        decreases needle@.len() - i,
    {
        if hay[at + i] != needle[i] {
            assert(hay@.subrange(at as int, at + needle@.len())[i as int] != needle@[i as int]);
            return false;
        }
        i = i + 1;
    }
    assert(hay@.subrange(at as int, at + needle@.len()) =~= needle@);
    true
}

/// `needle` stands in `hay` from position `at` on.
pub open spec fn stands_at(hay: Seq<char>, needle: Seq<char>, at: int) -> bool {
    0 <= at && at + needle.len() <= hay.len() && hay.subrange(at, at + needle.len()) == needle
}

/// `needle` stands somewhere in `hay`.
pub open spec fn has_substring(hay: Seq<char>, needle: Seq<char>) -> bool {
    exists|at: int| stands_at(hay, needle, at)
}

/// A text stands in another where the other is that text with something before it and
/// something behind it.
pub proof fn substring_stands_between(hay: Seq<char>, needle: Seq<char>)
    ensures
        has_substring(hay, needle) <==> exists|before: Seq<char>, after: Seq<char>|
            hay == #[trigger] (before + needle + after),
{
    if has_substring(hay, needle) {
        let at = choose|at: int| stands_at(hay, needle, at);
        assert(hay =~= hay.take(at) + needle + hay.skip(at + needle.len()));
    }
    assert forall|before: Seq<char>, after: Seq<char>|
        hay == #[trigger] (before + needle + after) implies has_substring(hay, needle) by {
        let at = before.len() as int;
        assert(hay.subrange(at, at + needle.len()) =~= needle);
        assert(stands_at(hay, needle, at));
    }
}

/// Whether `needle` stands somewhere in `hay`.
pub fn contains_text(hay: &str, needle: &str) -> (r: bool)
    ensures
        r == has_substring(hay@, needle@),
{
    let h = chars_of(hay);
    let n = chars_of(needle);
    if n.len() > h.len() {
        return false;
    }
    let last: usize = h.len() - n.len();
    let mut at: usize = 0;
    while at <= last
        invariant
            h@ == hay@,
            n@ == needle@,
            last == h@.len() - n@.len(),
            0 <= at <= last + 1,
            forall|j: int| 0 <= j < at ==> !stands_at(h@, n@, j),
        decreases last + 1 - at,
    {
        if occurs_at(&h, &n, at) {
            assert(stands_at(h@, n@, at as int));
            return true;
        }
        if at == last {
            return false;
        }
        at = at + 1;
    }
    false
}

// ---- trimming ----

/// The characters with the Unicode property White_Space.
pub open spec fn is_white_space(c: char) -> bool {
    let u = c as u32;
    ||| 0x09 <= u <= 0x0d
    ||| u == 0x20
    ||| u == 0x85
    ||| u == 0xa0
    ||| u == 0x1680
    ||| 0x2000 <= u <= 0x200a
    ||| u == 0x2028
    ||| u == 0x2029
    ||| u == 0x202f
    ||| u == 0x205f
    ||| u == 0x3000
}

/// `s` without the white space that it begins with.
pub open spec fn without_leading_space(s: Seq<char>) -> Seq<char>
    decreases s.len(),
{
    if s.len() > 0 && is_white_space(s.first()) {
        without_leading_space(s.drop_first())
    } else {
        s
    }
}

/// `s` without the white space that it ends with.
pub open spec fn without_trailing_space(s: Seq<char>) -> Seq<char>
    decreases s.len(),
{
    if s.len() > 0 && is_white_space(s.last()) {
        without_trailing_space(s.drop_last())
    } else {
        s
    }
}

/// `s` without the white space around it.
pub open spec fn trimmed(s: Seq<char>) -> Seq<char> {
    without_trailing_space(without_leading_space(s))
}

/// Among the ASCII characters white space is the blank and the tab, and what ends a line
/// or a page.
pub proof fn ascii_white_space(c: char)
    requires
        c as u32 <= 0x7f,
    ensures
        is_white_space(c) <==> c == ' ' || c == '\t' || c == '\n' || c == '\u{b}' || c == '\u{c}'
            || c == '\r',
{
}

/// Beyond ASCII white space is the next-line character, the blanks of other widths and
/// the separators of lines and paragraphs.
pub proof fn other_white_space(c: char)
    requires
        c as u32 > 0x7f,
    ensures
        is_white_space(c) <==> c == '\u{85}' || c == '\u{a0}' || c == '\u{1680}' || '\u{2000}' <= c
            <= '\u{200a}' || c == '\u{2028}' || c == '\u{2029}' || c == '\u{202f}' || c
            == '\u{205f}' || c == '\u{3000}',
{
}

/// Trimming takes white space off both ends, and nothing else: what it leaves neither
/// begins nor ends with white space.
pub proof fn trimming_takes_white_space_off(s: Seq<char>) -> (ends: (Seq<char>, Seq<char>))
    ensures
        s == ends.0 + trimmed(s) + ends.1,
        forall|i: int| 0 <= i < ends.0.len() ==> is_white_space(#[trigger] ends.0[i]),
        forall|i: int| 0 <= i < ends.1.len() ==> is_white_space(#[trigger] ends.1[i]),
        trimmed(s).len() > 0 ==> !is_white_space(trimmed(s).first()),
        trimmed(s).len() > 0 ==> !is_white_space(trimmed(s).last()),
{
    let lead = leading_space_goes(s);
    let rest = without_leading_space(s);
    let trail = trailing_space_goes(rest);
    assert(s =~= lead + trimmed(s) + trail);
    assert(trimmed(s).len() > 0 ==> trimmed(s).first() == rest.first());
    (lead, trail)
}

proof fn leading_space_goes(s: Seq<char>) -> (lead: Seq<char>)
    ensures
        s == lead + without_leading_space(s),
        forall|i: int| 0 <= i < lead.len() ==> is_white_space(#[trigger] lead[i]),
        without_leading_space(s).len() > 0 ==> !is_white_space(without_leading_space(s).first()),
    decreases s.len(),
{
    if s.len() > 0 && is_white_space(s.first()) {
        let below = leading_space_goes(s.drop_first());
        let lead = seq![s.first()] + below;
        assert(without_leading_space(s) == without_leading_space(s.drop_first()));
        assert(s =~= seq![s.first()] + s.drop_first());
        assert(s =~= lead + without_leading_space(s));
        lead
    } else {
        assert(s =~= Seq::<char>::empty() + s);
        Seq::empty()
    }
}

proof fn trailing_space_goes(s: Seq<char>) -> (trail: Seq<char>)
    ensures
        s == without_trailing_space(s) + trail,
        forall|i: int| 0 <= i < trail.len() ==> is_white_space(#[trigger] trail[i]),
        without_trailing_space(s).len() > 0 ==> !is_white_space(without_trailing_space(s).last()),
    decreases s.len(),
{
    if s.len() > 0 && is_white_space(s.last()) {
        let below = trailing_space_goes(s.drop_last());
        let trail = below.push(s.last());
        assert(without_trailing_space(s) == without_trailing_space(s.drop_last()));
        assert(s =~= s.drop_last().push(s.last()));
        assert(s =~= without_trailing_space(s) + trail);
        trail
    } else {
        assert(s =~= s + Seq::<char>::empty());
        Seq::empty()
    }
}

/// Whether `c` is white space.
fn is_space(c: char) -> (r: bool)
    ensures
        r == is_white_space(c),
{
    let u: u32 = c as u32;
    (0x09 <= u && u <= 0x0d) || u == 0x20 || u == 0x85 || u == 0xa0 || u == 0x1680
        || (0x2000 <= u && u <= 0x200a) || u == 0x2028 || u == 0x2029 || u == 0x202f
        || u == 0x205f || u == 0x3000
}

/// The text without the white space around it.
pub fn trim(s: &str) -> (r: String)
    ensures
        r@ == trimmed(s@),
{
    let v = chars_of(s);
    let n: usize = v.len();
    let mut start: usize = 0;
    assert(s@.skip(0) =~= s@);
    while start < n && is_space(v[start])
        invariant
            v@ == s@,
            n == v@.len(),
            0 <= start <= n,
            without_leading_space(s@) == without_leading_space(s@.skip(start as int)),
        decreases n - start,
    {
        assert(s@.skip(start as int).drop_first() =~= s@.skip(start + 1));
        start = start + 1;
    }
    let ghost lead = s@.skip(start as int);
    assert(without_leading_space(s@) == lead);
    let mut end: usize = n;
    assert(s@.subrange(start as int, n as int) =~= lead);
    while start < end && is_space(v[end - 1])
        invariant
            v@ == s@,
            n == v@.len(),
            0 <= start <= end <= n,
            without_trailing_space(lead) == without_trailing_space(
                s@.subrange(start as int, end as int),
            ),
        decreases end,
    {
        assert(s@.subrange(start as int, end as int).drop_last() =~= s@.subrange(
            start as int,
            end - 1,
        ));
        end = end - 1;
    }
    s.substring_char(start, end).to_owned()
}

/// `s` without the characters `c` that it ends with.
pub open spec fn without_trailing(s: Seq<char>, c: char) -> Seq<char>
    decreases s.len(),
{
    if s.len() > 0 && s.last() == c {
        without_trailing(s.drop_last(), c)
    } else {
        s
    }
}

/// The text without the characters `c` that it ends with.
pub fn trim_end_char(s: &str, c: char) -> (r: String)
    ensures
        r@ == without_trailing(s@, c),
{
    let v = chars_of(s);
    let mut end: usize = v.len();
    assert(s@.take(s@.len() as int) =~= s@);
    while 0 < end && v[end - 1] == c
        invariant
            v@ == s@,
            0 <= end <= v@.len(),
            without_trailing(s@, c) == without_trailing(s@.take(end as int), c),
        decreases end,
    {
        assert(s@.take(end as int).drop_last() =~= s@.take(end - 1));
        end = end - 1;
    }
    assert(s@.subrange(0, end as int) =~= s@.take(end as int));
    s.substring_char(0, end).to_owned()
}

/// Trimming takes nothing off but that character.
pub proof fn trimming_takes_one_character_off(s: Seq<char>, c: char) -> (n: nat)
    ensures
        s == without_trailing(s, c) + Seq::new(n, |i: int| c),
    decreases s.len(),
{
    if s.len() > 0 && s.last() == c {
        let below = trimming_takes_one_character_off(s.drop_last(), c);
        let n = below + 1;
        assert(without_trailing(s, c) == without_trailing(s.drop_last(), c));
        assert(s =~= s.drop_last().push(c));
        assert(s =~= without_trailing(s, c) + Seq::new(n, |i: int| c));
        n
    } else {
        assert(s =~= s + Seq::new(0, |i: int| c));
        0
    }
}

/// What is left after trimming ends in another character, or is empty.
pub proof fn trailing_is_gone(s: Seq<char>, c: char)
    ensures
        without_trailing(s, c).len() > 0 ==> without_trailing(s, c).last() != c,
        has_prefix(s, without_trailing(s, c)),
    decreases s.len(),
{
    if s.len() > 0 && s.last() == c {
        trailing_is_gone(s.drop_last(), c);
        let t = without_trailing(s, c);
        assert(s.take(t.len() as int) =~= s.drop_last().take(t.len() as int));
    } else {
        assert(s.take(s.len() as int) =~= s);
    }
}

// ---- splitting and joining ----

/// The position of the first `c` in `s`, or the length of `s` where there is none.
pub open spec fn first_of(s: Seq<char>, c: char) -> nat
    decreases s.len(),
{
    if s.len() == 0 || s[0] == c {
        0
    } else {
        1 + first_of(s.drop_first(), c)
    }
}

/// The first position is the one that nothing before it equals.
pub proof fn first_of_is(s: Seq<char>, c: char, i: int)
    requires
        0 <= i <= s.len(),
        forall|j: int| 0 <= j < i ==> s[j] != c,
        i < s.len() ==> s[i] == c,
    ensures
        first_of(s, c) == i,
    decreases s.len(),
{
    if i > 0 {
        assert(s[0] != c);
        assert forall|j: int| 0 <= j < i - 1 implies s.drop_first()[j] != c by {
            assert(s[j + 1] != c);
        }
        first_of_is(s.drop_first(), c, i - 1);
    }
}

/// Nothing before the first position equals the character that stands there.
pub proof fn first_of_bounds(s: Seq<char>, c: char)
    ensures
        first_of(s, c) <= s.len(),
        first_of(s, c) < s.len() ==> s[first_of(s, c) as int] == c,
        forall|j: int| 0 <= j < first_of(s, c) ==> s[j] != c,
    decreases s.len(),
{
    if s.len() > 0 && s[0] != c {
        let t = s.drop_first();
        first_of_bounds(t, c);
        assert forall|j: int| 0 <= j < first_of(s, c) implies s[j] != c by {
            if j > 0 {
                assert(t[j - 1] != c);
            }
        }
    }
}

/// The first position of the character in the text; the text's length where it does not occur.
pub fn find_char(s: &str, c: char) -> (r: usize)
    ensures
        r == first_of(s@, c),
        r <= s@.len(),
{
    let v = chars_of(s);
    let mut i: usize = 0;
    while i < v.len() && v[i] != c
        invariant
            v@ == s@,
            i <= v.len(),
            forall|j: int| 0 <= j < i ==> s@[j] != c,
        decreases v.len() - i,
    {
        i += 1;
    }
    proof {
        first_of_is(s@, c, i as int);
    }
    i
}

/// The pieces of `s` between the separators `sep`.
pub open spec fn split(s: Seq<char>, sep: char) -> Seq<Seq<char>>
    decreases s.len(),
{
    let i = first_of(s, sep);
    if i < s.len() {
        seq![s.take(i as int)] + split(s.skip(i as int + 1), sep)
    } else {
        seq![s]
    }
}

/// The pieces with `sep` between them.
pub open spec fn join(parts: Seq<Seq<char>>, sep: char) -> Seq<char>
    decreases parts.len(),
{
    if parts.len() == 0 {
        Seq::empty()
    } else if parts.len() == 1 {
        parts[0]
    } else {
        join(parts.drop_last(), sep) + seq![sep] + parts.last()
    }
}

/// The views of a list of texts.
pub open spec fn texts(v: Seq<String>) -> Seq<Seq<char>> {
    v.map_values(|s: String| s@)
}

/// The view of a text that may be missing.
pub open spec fn optional_str(s: Option<&str>) -> Option<Seq<char>> {
    match s {
        Some(s) => Some(s@),
        None => None,
    }
}

/// The view of a text that may be missing.
pub open spec fn optional_text(s: Option<String>) -> Option<Seq<char>> {
    match s {
        Some(s) => Some(s@),
        None => None,
    }
}

/// A text that may be missing reads as itself where it is there, and only there.
pub proof fn optional_texts_read_as_themselves(s: Option<String>, t: Option<&str>)
    ensures
        optional_text(s) is Some <==> s is Some,
        s matches Some(x) ==> optional_text(s) == Some(x@),
        optional_str(t) is Some <==> t is Some,
        t matches Some(x) ==> optional_str(t) == Some(x@),
{
}

/// A list of texts has as many views as texts, in the same order; and as many upper-case
/// forms.
pub proof fn lists_are_read_text_by_text(v: Seq<String>, i: int)
    requires
        0 <= i < v.len(),
    ensures
        texts(v).len() == v.len(),
        texts(v)[i] == v[i]@,
        uppercase_all(texts(v)).len() == v.len(),
        uppercase_all(texts(v))[i] == uppercase(v[i]@),
{
}

/// The same text, if there is one.
pub fn copy_text(s: &Option<String>) -> (r: Option<String>)
    ensures
        optional_text(r) == optional_text(*s),
        r is Some <==> *s is Some,
        *s matches Some(t) ==> r->Some_0@ == t@,
{
    match s {
        Some(s) => Some(s.clone()),
        None => None,
    }
}

/// A list with the same texts.
pub fn copy_texts(v: &Vec<String>) -> (r: Vec<String>)
    ensures
        texts(r@) == texts(v@),
        r@.len() == v@.len(),
        forall|i: int| 0 <= i < r@.len() ==> (#[trigger] r@[i])@ == v@[i]@,
{
    let mut r: Vec<String> = Vec::new();
    let mut i: usize = 0;
    while i < v.len()
        invariant
            i <= v@.len(),
            r@.len() == i,
            forall|j: int| 0 <= j < i ==> (#[trigger] r@[j])@ == v@[j]@,
        decreases v@.len() - i,
    {
        r.push(v[i].clone());
        i += 1;
    }
    assert(texts(r@) =~= texts(v@));
    r
}

/// The uppercase equivalents of a list of texts.
pub open spec fn uppercase_all(v: Seq<Seq<char>>) -> Seq<Seq<char>> {
    v.map_values(|s: Seq<char>| uppercase(s))
}

/// The texts in upper case.
pub fn to_uppercase_all(v: &Vec<String>) -> (r: Vec<String>)
    ensures
        texts(r@) == uppercase_all(texts(v@)),
        r@.len() == v@.len(),
        forall|i: int| 0 <= i < r@.len() ==> (#[trigger] r@[i])@ == uppercase(v@[i]@),
{
    let mut r: Vec<String> = Vec::new();
    let mut i: usize = 0;
    while i < v.len()
        invariant
            i <= v@.len(),
            r@.len() == i,
            forall|j: int| 0 <= j < i ==> (#[trigger] r@[j])@ == uppercase(v@[j]@),
        decreases v@.len() - i,
    {
        r.push(v[i].as_str().to_uppercase());
        i += 1;
    }
    assert(texts(r@) =~= uppercase_all(texts(v@)));
    r
}

/// The pieces of the text between the separators.
pub fn split_text(s: &str, sep: char) -> (r: Vec<String>)
    ensures
        texts(r@) == split(s@, sep),
{
    let v = chars_of(s);
    let n: usize = v.len();
    let mut r: Vec<String> = Vec::new();
    let mut start: usize = 0;
    let mut i: usize = 0;
    assert(s@.skip(0) =~= s@);
    assert(texts(r@) + split(s@.skip(0), sep) =~= split(s@, sep));
    while i < n
        invariant
            v@ == s@,
            n == v@.len(),
            0 <= start <= i <= n,
            forall|j: int| start <= j < i ==> s@[j] != sep,
            texts(r@) + split(s@.skip(start as int), sep) == split(s@, sep),
        decreases n - i,
    {
        if v[i] == sep {
            let piece = s.substring_char(start, i).to_owned();
            proof {
                let rest = s@.skip(start as int);
                first_of_is(rest, sep, i - start);
                assert(rest.take(i - start) =~= piece@);
                assert(rest.skip(i - start + 1) =~= s@.skip(i + 1));
                assert(texts(r@.push(piece)) =~= texts(r@).push(piece@));
                assert(texts(r@.push(piece)) + split(s@.skip(i + 1), sep) =~= texts(r@) + split(
                    rest,
                    sep,
                ));
            }
            r.push(piece);
            start = i + 1;
        }
        i = i + 1;
    }
    let piece = s.substring_char(start, n).to_owned();
    proof {
        let rest = s@.skip(start as int);
        first_of_is(rest, sep, n - start);
        assert(rest =~= piece@);
        assert(texts(r@.push(piece)) =~= texts(r@) + split(rest, sep));
    }
    r.push(piece);
    r
}

/// The pieces joined by `sep`, which is a text of one character.
pub fn join_texts(parts: &Vec<String>, sep: &str) -> (r: String)
    requires
        sep@.len() == 1,
    ensures
        r@ == join(texts(parts@), sep@[0]),
{
    let mut r = String::new();
    let mut i: usize = 0;
    assert(texts(parts@).take(0) =~= Seq::<Seq<char>>::empty());
    while i < parts.len()
        invariant
            sep@.len() == 1,
            0 <= i <= parts@.len(),
            r@ == join(texts(parts@).take(i as int), sep@[0]),
        decreases parts@.len() - i,
    {
        let ghost before = r@;
        if i > 0 {
            r.append(sep);
        }
        r.append(parts[i].as_str());
        proof {
            let done = texts(parts@).take(i + 1);
            assert(done.drop_last() =~= texts(parts@).take(i as int));
            assert(done.last() == parts@[i as int]@);
            assert(seq![sep@[0]] =~= sep@);
            if i > 0 {
                assert(r@ =~= before + seq![sep@[0]] + parts@[i as int]@);
            } else {
                assert(r@ =~= parts@[i as int]@);
            }
        }
        i = i + 1;
    }
    assert(texts(parts@).take(parts@.len() as int) =~= texts(parts@));
    r
}

/// A join can be read from its first piece on.
pub proof fn join_from_the_front(first: Seq<char>, rest: Seq<Seq<char>>, sep: char)
    requires
        rest.len() > 0,
    ensures
        join(seq![first] + rest, sep) == first + seq![sep] + join(rest, sep),
    decreases rest.len(),
{
    let all = seq![first] + rest;
    assert(all.last() == rest.last());
    if rest.len() == 1 {
        assert(all.drop_last() =~= seq![first]);
        assert(join(all.drop_last(), sep) == first);
    } else {
        assert(all.drop_last() =~= seq![first] + rest.drop_last());
        join_from_the_front(first, rest.drop_last(), sep);
        assert(join(all, sep) =~= first + seq![sep] + join(rest, sep));
    }
}

/// One piece is joined to itself, and no piece to nothing.
pub proof fn join_of_one(piece: Seq<char>, sep: char)
    ensures
        join(Seq::empty(), sep) == Seq::<char>::empty(),
        join(seq![piece], sep) == piece,
{
}

/// Splitting gives at least one piece, and no piece holds the separator.
pub proof fn split_pieces(s: Seq<char>, sep: char)
    ensures
        split(s, sep).len() > 0,
        forall|i: int|
            0 <= i < split(s, sep).len() ==> !(#[trigger] split(s, sep)[i]).contains(sep),
    decreases s.len(),
{
    let n = first_of(s, sep);
    first_of_bounds(s, sep);
    if n < s.len() {
        let rest = s.skip(n as int + 1);
        split_pieces(rest, sep);
        assert(!s.take(n as int).contains(sep));
        assert forall|i: int| 0 <= i < split(s, sep).len() implies !(#[trigger] split(
            s,
            sep,
        )[i]).contains(sep) by {
            if i > 0 {
                assert(split(s, sep)[i] == split(rest, sep)[i - 1]);
            }
        }
    }
}

/// Joining the pieces gives the text back.
pub proof fn join_undoes_split(s: Seq<char>, sep: char)
    ensures
        join(split(s, sep), sep) == s,
    decreases s.len(),
{
    let n = first_of(s, sep);
    first_of_bounds(s, sep);
    if n < s.len() {
        let first = s.take(n as int);
        let rest = s.skip(n as int + 1);
        split_pieces(rest, sep);
        join_undoes_split(rest, sep);
        join_from_the_front(first, split(rest, sep), sep);
        assert(first + seq![sep] + rest =~= s);
    }
}

/// Splitting gives the joined pieces back, where none of them holds the separator.
pub proof fn split_undoes_join(parts: Seq<Seq<char>>, sep: char)
    requires
        parts.len() > 0,
        forall|i: int| 0 <= i < parts.len() ==> !(#[trigger] parts[i]).contains(sep),
    ensures
        split(join(parts, sep), sep) == parts,
    decreases parts.len(),
{
    let first = parts[0];
    let whole = join(parts, sep);
    assert forall|j: int| 0 <= j < first.len() implies first[j] != sep by {
        assert(first.contains(first[j]));
    }
    if parts.len() == 1 {
        first_of_is(whole, sep, whole.len() as int);
        assert(split(whole, sep) =~= parts);
    } else {
        let rest = parts.drop_first();
        assert(parts =~= seq![first] + rest);
        join_from_the_front(first, rest, sep);
        split_undoes_join(rest, sep);
        first_of_is(whole, sep, first.len() as int);
        assert(whole.take(first.len() as int) =~= first);
        assert(whole.skip(first.len() as int + 1) =~= join(rest, sep));
    }
}

/// The character of a digit.
pub open spec fn digit_char(d: nat) -> char {
    ('0' as u32 + d) as char
}

/// A number in decimal digits.
pub open spec fn decimal(n: nat) -> Seq<char>
    decreases n,
{
    if n < 10 {
        seq![digit_char(n)]
    } else {
        decimal(n / 10).push(digit_char(n % 10))
    }
}

/// The decimal digits of a number read back as that number, and a number other than
/// zero does not begin with a zero.
pub proof fn digits_read_back(n: nat)
    ensures
        decimal(n).len() > 0,
        forall|i: int| 0 <= i < decimal(n).len() ==> '0' <= #[trigger] decimal(n)[i] <= '9',
        decimal(n).fold_left(0int, |read: int, c: char| 10 * read + (c as int - '0' as int)) == n,
        n > 0 ==> decimal(n)[0] != '0',
    decreases n,
{
    let f = |read: int, c: char| 10 * read + (c as int - '0' as int);
    let s = decimal(n);
    if n < 10 {
        assert(s.drop_last() =~= Seq::<char>::empty());
        assert(s.drop_last().fold_left(0int, f) == 0);
    } else {
        digits_read_back(n / 10);
        assert(s.drop_last() =~= decimal(n / 10));
    }
    assert(s.fold_left(0int, f) == f(s.drop_last().fold_left(0int, f), s.last()));
}

fn digit_text(d: u64) -> (r: &'static str)
    requires
        d < 10,
    ensures
        r@ == seq![digit_char(d as nat)],
{
    proof {
        reveal_strlit("0");
        reveal_strlit("1");
        reveal_strlit("2");
        reveal_strlit("3");
        reveal_strlit("4");
        reveal_strlit("5");
        reveal_strlit("6");
        reveal_strlit("7");
        reveal_strlit("8");
        reveal_strlit("9");
    }
    let r = match d {
        0 => "0",
        1 => "1",
        2 => "2",
        3 => "3",
        4 => "4",
        5 => "5",
        6 => "6",
        7 => "7",
        8 => "8",
        _ => "9",
    };
    assert(r@ =~= seq![digit_char(d as nat)]);
    r
}

/// The number in decimal digits.
pub fn decimal_text(n: u64) -> (r: String)
    ensures
        r@ == decimal(n as nat),
    decreases n,
{
    if n < 10 {
        digit_text(n).to_owned()
    } else {
        let mut r = decimal_text(n / 10);
        r.append(digit_text(n % 10));
        assert(r@ =~= decimal(n as nat));
        r
    }
}

} // verus!
