//! Which records are replayed.
//!
//! A filter lets a record through that has any of the values it was made with. A chain
//! lets a record through that all of its filters let through.

use vstd::prelude::*;

use crate::config::Config;
use crate::models::ReplayRecord;
use crate::text;

verus! {

/// A condition on records.
pub trait Filter: Send + Sync {
    /// Whether the record is let through.
    spec fn accepts(&self, record: ReplayRecord) -> bool;

    /// What the filter is called in logs.
    spec fn label(&self) -> Seq<char>;

    /// Says whether the record is let through.
    fn matches(&self, record: &ReplayRecord) -> (r: bool)
        ensures
            r == self.accepts(*record),
    ;

    /// A short label for logs.
    fn description(&self) -> (r: String)
        ensures
            r@ == self.label(),
    ;
}

/// A filter of any kind.
pub struct BoxedFilter {
    pub filter: Box<dyn Filter>,
}

impl BoxedFilter {
    /// Whether the filter lets the record through.
    pub open spec fn accepts(&self, record: ReplayRecord) -> bool {
        self.filter.accepts(record)
    }
}

/// Filters that a record has to pass one after the other.
pub struct FilterChain {
    filters: Vec<BoxedFilter>,
}

/// Whether every filter of a list lets the record through.
pub open spec fn all_accept(filters: Seq<BoxedFilter>, record: ReplayRecord) -> bool {
    forall|i: int| 0 <= i < filters.len() ==> (#[trigger] filters[i]).accepts(record)
}

impl FilterChain {
    /// The filters, in their order.
    pub closed spec fn filters(&self) -> Seq<BoxedFilter> {
        self.filters@
    }

    /// Whether the chain lets the record through.
    pub open spec fn accepts(&self, record: ReplayRecord) -> bool {
        all_accept(self.filters(), record)
    }

    /// A chain of these filters.
    pub fn new(filters: Vec<BoxedFilter>) -> (r: Self)
        ensures
            r.filters() == filters@,
    {
        FilterChain { filters }
    }

    /// Whether there is nothing to pass.
    pub fn is_empty(&self) -> (r: bool)
        ensures
            r == (self.filters().len() == 0),
    {
        self.filters.len() == 0
    }

    /// Whether the record passes every filter.
    pub fn matches(&self, record: &ReplayRecord) -> (r: bool)
        ensures
            r == self.accepts(*record),
            r <==> forall|i: int|
                0 <= i < self.filters().len() ==> (#[trigger] self.filters()[i]).filter.accepts(
                    *record,
                ),
    {
        let mut i: usize = 0;
        while i < self.filters.len()
            invariant
                i <= self.filters@.len(),
                forall|j: int|
                    0 <= j < i ==> (#[trigger] self.filters@[j]).accepts(*record),
            decreases self.filters@.len() - i,
        {
            if !self.filters[i].filter.matches(record) {
                assert(!self.filters@[i as int].accepts(*record));
                assert(!self.filters()[i as int].filter.accepts(*record));
                return false;
            }
            i += 1;
        }
        assert forall|k: int| 0 <= k < self.filters().len() implies (
        #[trigger] self.filters()[k]).filter.accepts(*record) by {
            assert(self.filters@[k].accepts(*record));
        }
        true
    }
}

/// An empty chain lets everything through.
pub proof fn empty_chain_accepts_all(record: ReplayRecord)
    ensures
        all_accept(Seq::<BoxedFilter>::empty(), record),
{
}

/// One more filter never lets through what was stopped before.
pub proof fn longer_chain_accepts_less(
    filters: Seq<BoxedFilter>,
    one_more: BoxedFilter,
    record: ReplayRecord,
)
    ensures
        all_accept(filters.push(one_more), record) <==> all_accept(filters, record)
            && one_more.accepts(record),
{
    let longer = filters.push(one_more);
    if all_accept(longer, record) {
        assert(longer[filters.len() as int].accepts(record));
        assert forall|i: int| 0 <= i < filters.len() implies (
        #[trigger] filters[i]).accepts(record) by {
            assert(longer[i].accepts(record));
        }
    }
}

/// How `{:?}` shows a list of texts.
pub uninterp spec fn shown_texts(v: Seq<Seq<char>>) -> Seq<char>;

/// Numbers with a comma and a blank between them.
pub open spec fn listed_numbers(v: Seq<u16>) -> Seq<char>
    decreases v.len(),
{
    if v.len() == 0 {
        Seq::empty()
    } else if v.len() == 1 {
        text::decimal(v[0] as nat)
    } else {
        listed_numbers(v.drop_last()) + ", "@ + text::decimal(v.last() as nat)
    }
}

/// A list of numbers in square brackets.
pub open spec fn shown_numbers(v: Seq<u16>) -> Seq<char> {
    "["@ + listed_numbers(v) + "]"@
}

/// `format!` with `{:?}` on a list of texts. What it gives has the name [`shown_texts`].
#[verifier::external_body]
fn show_texts(v: &Vec<String>) -> (r: String)
    ensures
        r@ == shown_texts(text::texts(v@)),
{
    format!("{:?}", v)
}

/// The numbers in square brackets, with a comma and a blank between them.
fn show_numbers(v: &Vec<u16>) -> (r: String)
    ensures
        r@ == shown_numbers(v@),
{
    let mut list = String::new();
    let mut i: usize = 0;
    assert(v@.take(0) =~= Seq::<u16>::empty());
    while i < v.len()
        invariant
            i <= v@.len(),
            list@ == listed_numbers(v@.take(i as int)),
        decreases v@.len() - i,
    {
        let ghost before = list@;
        if i > 0 {
            list.append(", ");
        }
        list.append(text::decimal_text(v[i] as u64).as_str());
        proof {
            let done = v@.take(i + 1);
            assert(done.drop_last() =~= v@.take(i as int));
            assert(done.last() == v@[i as int]);
            if i == 0 {
                assert(list@ =~= text::decimal(done[0] as nat));
            }
        }
        i += 1;
    }
    assert(v@.take(v@.len() as int) =~= v@);
    "[".to_owned().concat(list.as_str()).concat("]")
}

/// Whether the method is one of those allowed, which are in upper case; its own case
/// does not count.
pub open spec fn has_method(allowed: Seq<Seq<char>>, method: Seq<char>) -> bool {
    allowed.contains(text::uppercase(method))
}

/// Lets records with certain methods through.
pub struct MethodFilter {
    methods: Vec<String>,
}

impl MethodFilter {
    /// The methods that are let through, in upper case.
    pub closed spec fn allowed(&self) -> Seq<Seq<char>> {
        text::texts(self.methods@)
    }

    /// A filter for these methods, in whatever case they are given.
    pub fn new(methods: Vec<String>) -> (r: Self)
        ensures
            r.allowed() == text::uppercase_all(text::texts(methods@)),
    {
        MethodFilter { methods: text::to_uppercase_all(&methods) }
    }
}

impl Filter for MethodFilter {
    open spec fn accepts(&self, record: ReplayRecord) -> bool {
        has_method(self.allowed(), record.method@)
    }

    open spec fn label(&self) -> Seq<char> {
        "method ∈ "@ + shown_texts(self.allowed())
    }

    fn matches(&self, record: &ReplayRecord) -> (r: bool)
        ensures
            r <==> exists|i: int|
                0 <= i < self.allowed().len() && #[trigger] self.allowed()[i] == text::uppercase(
                    record.method@,
                ),
    {
        let upper = record.method.as_str().to_uppercase();
        let mut i: usize = 0;
        while i < self.methods.len()
            invariant
                i <= self.methods@.len(),
                upper@ == text::uppercase(record.method@),
                forall|j: int| 0 <= j < i ==> (#[trigger] self.allowed()[j]) != upper@,
            decreases self.methods@.len() - i,
        {
            assert(self.allowed()[i as int] == self.methods@[i as int]@);
            if text::same_text(self.methods[i].as_str(), upper.as_str()) {
                return true;
            }
            i += 1;
        }
        false
    }

    fn description(&self) -> (r: String)
        ensures
            r@ == "method ∈ "@ + shown_texts(self.allowed()),
    {
        "method ∈ ".to_owned().concat(show_texts(&self.methods).as_str())
    }
}

/// Whether the path begins with one of the prefixes.
pub open spec fn has_some_prefix(prefixes: Seq<Seq<char>>, path: Seq<char>) -> bool {
    exists|i: int| 0 <= i < prefixes.len() && text::has_prefix(path, #[trigger] prefixes[i])
}

/// Lets records through whose path begins with one of several prefixes.
pub struct PathPrefixFilter {
    prefixes: Vec<String>,
}

impl PathPrefixFilter {
    /// The prefixes that are let through.
    pub closed spec fn allowed(&self) -> Seq<Seq<char>> {
        text::texts(self.prefixes@)
    }

    /// A filter for these prefixes.
    pub fn new(prefixes: Vec<String>) -> (r: Self)
        ensures
            r.allowed() == text::texts(prefixes@),
    {
        PathPrefixFilter { prefixes }
    }
}

impl Filter for PathPrefixFilter {
    open spec fn accepts(&self, record: ReplayRecord) -> bool {
        has_some_prefix(self.allowed(), record.path@)
    }

    open spec fn label(&self) -> Seq<char> {
        "path starts_with any of "@ + shown_texts(self.allowed())
    }

    fn matches(&self, record: &ReplayRecord) -> (r: bool)
        ensures
            r <==> exists|i: int|
                0 <= i < self.allowed().len() && text::has_prefix(
                    record.path@,
                    #[trigger] self.allowed()[i],
                ),
    {
        let mut i: usize = 0;
        while i < self.prefixes.len()
            invariant
                i <= self.prefixes@.len(),
                forall|j: int|
                    0 <= j < i ==> !text::has_prefix(record.path@, #[trigger] self.allowed()[j]),
            decreases self.prefixes@.len() - i,
        {
            assert(self.allowed()[i as int] == self.prefixes@[i as int]@);
            if text::starts_with(record.path.as_str(), self.prefixes[i].as_str()) {
                return true;
            }
            i += 1;
        }
        false
    }

    fn description(&self) -> (r: String)
        ensures
            r@ == "path starts_with any of "@ + shown_texts(self.allowed()),
    {
        "path starts_with any of ".to_owned().concat(show_texts(&self.prefixes).as_str())
    }
}

/// Whether the recorded status is one of those allowed; a missing one never is.
pub open spec fn has_status(allowed: Seq<u16>, status: Option<u16>) -> bool {
    status matches Some(s) && allowed.contains(s)
}

/// Lets records with certain recorded statuses through.
pub struct StatusFilter {
    statuses: Vec<u16>,
}

impl StatusFilter {
    /// The statuses that are let through.
    pub closed spec fn allowed(&self) -> Seq<u16> {
        self.statuses@
    }

    /// A filter for these statuses.
    pub fn new(statuses: Vec<u16>) -> (r: Self)
        ensures
            r.allowed() == statuses@,
    {
        StatusFilter { statuses }
    }
}

impl Filter for StatusFilter {
    open spec fn accepts(&self, record: ReplayRecord) -> bool {
        has_status(self.allowed(), record.status)
    }

    open spec fn label(&self) -> Seq<char> {
        "status ∈ "@ + shown_numbers(self.allowed())
    }

    fn matches(&self, record: &ReplayRecord) -> (r: bool)
        ensures
            record.status is None ==> !r,
            record.status matches Some(s) ==> (r <==> exists|i: int|
                0 <= i < self.allowed().len() && #[trigger] self.allowed()[i] == s),
    {
        match record.status {
            None => false,
            Some(status) => {
                let mut i: usize = 0;
                while i < self.statuses.len()
                    invariant
                        record.status == Some(status),
                        i <= self.statuses@.len(),
                        forall|j: int| 0 <= j < i ==> (#[trigger] self.allowed()[j]) != status,
                    decreases self.statuses@.len() - i,
                {
                    assert(self.allowed()[i as int] == self.statuses@[i as int]);
                    if self.statuses[i] == status {
                        return true;
                    }
                    i += 1;
                }
                false
            },
        }
    }

    fn description(&self) -> (r: String)
        ensures
            r@ == "status ∈ "@ + shown_numbers(self.allowed()),
    {
        "status ∈ ".to_owned().concat(show_numbers(&self.statuses).as_str())
    }
}

/// Whether a configuration lets a record through: any of the methods, any of the path
/// prefixes and any of the statuses, where an empty list lets everything through.
pub open spec fn is_wanted(config: Config, record: ReplayRecord) -> bool {
    &&& config.methods@.len() > 0 ==> has_method(
        text::uppercase_all(text::texts(config.methods@)),
        record.method@,
    )
    &&& config.path_prefixes@.len() > 0 ==> has_some_prefix(
        text::texts(config.path_prefixes@),
        record.path@,
    )
    &&& config.statuses@.len() > 0 ==> has_status(config.statuses@, record.status)
}

/// A boxed filter for methods.
fn method_filter(methods: &Vec<String>) -> (r: BoxedFilter)
    ensures
        forall|record: ReplayRecord| #[trigger]
            r.accepts(record) == has_method(
                text::uppercase_all(text::texts(methods@)),
                record.method@,
            ),
{
    BoxedFilter { filter: Box::new(MethodFilter::new(text::copy_texts(methods))) }
}

/// A boxed filter for path prefixes.
fn path_prefix_filter(prefixes: &Vec<String>) -> (r: BoxedFilter)
    ensures
        forall|record: ReplayRecord| #[trigger]
            r.accepts(record) == has_some_prefix(text::texts(prefixes@), record.path@),
{
    BoxedFilter { filter: Box::new(PathPrefixFilter::new(text::copy_texts(prefixes))) }
}

/// A boxed filter for statuses.
fn status_filter(statuses: &Vec<u16>) -> (r: BoxedFilter)
    ensures
        forall|record: ReplayRecord| #[trigger]
            r.accepts(record) == has_status(statuses@, record.status),
{
    BoxedFilter { filter: Box::new(StatusFilter::new(statuses.clone())) }
}

/// Makes the chain that a configuration asks for.
pub struct FilterFactory;

impl FilterFactory {
    /// One filter for each list of the configuration that is not empty.
    pub fn from_config(config: &Config) -> (r: FilterChain)
        ensures
            forall|record: ReplayRecord| #[trigger]
                r.accepts(record) == is_wanted(*config, record),
            r.filters().len() == 0 <==> config.methods@.len() == 0 && config.path_prefixes@.len()
                == 0 && config.statuses@.len() == 0,
    {
        let mut filters: Vec<BoxedFilter> = Vec::new();
        if config.methods.len() > 0 {
            filters.push(method_filter(&config.methods));
        }
        let ghost first = filters@;
        if config.path_prefixes.len() > 0 {
            filters.push(path_prefix_filter(&config.path_prefixes));
        }
        let ghost second = filters@;
        if config.statuses.len() > 0 {
            filters.push(status_filter(&config.statuses));
        }
        let ghost third = filters@;
        proof {
            assert forall|record: ReplayRecord| #[trigger]
                all_accept(third, record) == is_wanted(*config, record) by {
                if config.methods@.len() > 0 {
                    longer_chain_accepts_less(Seq::empty(), first[0], record);
                    assert(first =~= Seq::empty().push(first[0]));
                }
                if config.path_prefixes@.len() > 0 {
                    longer_chain_accepts_less(first, second.last(), record);
                    assert(second =~= first.push(second.last()));
                }
                if config.statuses@.len() > 0 {
                    longer_chain_accepts_less(second, third.last(), record);
                    assert(third =~= second.push(third.last()));
                }
            }
        }
        FilterChain::new(filters)
    }
}

/// A configuration wants a record that has, in any case of its letters, one of the
/// methods, if any are given; whose path is one of the prefixes with something behind it,
/// if any are given; and whose recorded status is one of the statuses, if any are given.
pub proof fn what_is_wanted(config: Config, record: ReplayRecord)
    ensures
        is_wanted(config, record) <==> {
            &&& config.methods@.len() == 0 || exists|i: int|
                0 <= i < config.methods@.len() && text::uppercase(
                    (#[trigger] config.methods@[i])@,
                ) == text::uppercase(record.method@)
            &&& config.path_prefixes@.len() == 0 || exists|i: int, rest: Seq<char>|
                0 <= i < config.path_prefixes@.len() && record.path@ == #[trigger] (
                config.path_prefixes@[i]@ + rest)
            &&& config.statuses@.len() == 0 || exists|i: int|
                0 <= i < config.statuses@.len() && record.status == Some(
                    #[trigger] config.statuses@[i],
                )
        },
{
    let methods = text::uppercase_all(text::texts(config.methods@));
    let prefixes = text::texts(config.path_prefixes@);
    let upper = text::uppercase(record.method@);
    if has_method(methods, record.method@) {
        let i = choose|i: int| 0 <= i < methods.len() && methods[i] == upper;
        assert(text::uppercase(config.methods@[i]@) == upper);
    }
    assert forall|i: int|
        0 <= i < config.methods@.len() && text::uppercase((#[trigger] config.methods@[i])@)
            == upper implies has_method(methods, record.method@) by {
        assert(methods[i] == upper);
    }
    if has_some_prefix(prefixes, record.path@) {
        let i = choose|i: int|
            0 <= i < prefixes.len() && text::has_prefix(record.path@, #[trigger] prefixes[i]);
        text::prefix_is_the_front(record.path@, prefixes[i]);
        let rest = choose|rest: Seq<char>| record.path@ == #[trigger] (prefixes[i] + rest);
        assert(record.path@ == config.path_prefixes@[i]@ + rest);
    }
    assert forall|i: int, rest: Seq<char>|
        0 <= i < config.path_prefixes@.len() && record.path@ == #[trigger] (
        config.path_prefixes@[i]@ + rest) implies has_some_prefix(prefixes, record.path@) by {
        assert(prefixes[i] == config.path_prefixes@[i]@);
        text::prefix_is_the_front(record.path@, prefixes[i]);
    }
    if has_status(config.statuses@, record.status) {
        let s = record.status->Some_0;
        let i = choose|i: int| 0 <= i < config.statuses@.len() && config.statuses@[i] == s;
        assert(record.status == Some(config.statuses@[i]));
    }
}

/// A list of numbers is shown in square brackets, with a comma and a blank before each
/// number but the first.
pub proof fn numbers_are_shown_between_commas(v: Seq<u16>, n: u16)
    ensures
        shown_numbers(Seq::empty()) == "["@ + "]"@,
        shown_numbers(seq![n]) == "["@ + text::decimal(n as nat) + "]"@,
        v.len() > 0 ==> shown_numbers(v.push(n)) == shown_numbers(v).drop_last() + ", "@
            + text::decimal(n as nat) + "]"@,
{
    reveal_strlit("[");
    reveal_strlit("]");
    assert(shown_numbers(Seq::empty()) =~= "["@ + "]"@);
    assert(v.push(n).drop_last() =~= v);
    assert(shown_numbers(v).drop_last() =~= "["@ + listed_numbers(v));
    if v.len() > 0 {
        assert(shown_numbers(v.push(n)) =~= shown_numbers(v).drop_last() + ", "@ + text::decimal(
            n as nat,
        ) + "]"@);
    }
}

/// The case of a method does not count.
pub proof fn method_case_does_not_count(allowed: Seq<Seq<char>>, method: Seq<char>)
    requires
        vstd::utf8::is_ascii_chars(method),
    ensures
        has_method(allowed, text::ascii_lowercase(method)) == has_method(allowed, method),
{
    text::uppercase_ignores_case(method);
}

/// Methods that are put in upper case twice, once with the flags and once with the
/// filter, let through what has the same letters in any case.
pub proof fn flagged_methods_are_let_through(methods: Seq<Seq<char>>, method: Seq<char>)
    requires
        vstd::utf8::is_ascii_chars(method),
        forall|i: int|
            0 <= i < methods.len() ==> vstd::utf8::is_ascii_chars(#[trigger] methods[i]),
    ensures
        has_method(text::uppercase_all(text::uppercase_all(methods)), method) <==> exists|i: int|
            0 <= i < methods.len() && text::ascii_uppercase(#[trigger] methods[i])
                == text::ascii_uppercase(method),
{
    let twice = text::uppercase_all(text::uppercase_all(methods));
    assert forall|i: int| 0 <= i < methods.len() implies twice[i] == text::ascii_uppercase(
        #[trigger] methods[i],
    ) by {
        text::uppercase_is_idempotent(methods[i]);
    }
    if has_method(twice, method) {
        let i = choose|i: int| 0 <= i < twice.len() && twice[i] == text::uppercase(method);
        assert(text::ascii_uppercase(methods[i]) == text::ascii_uppercase(method));
    }
    if exists|i: int|
        0 <= i < methods.len() && text::ascii_uppercase(#[trigger] methods[i])
            == text::ascii_uppercase(method) {
        let i = choose|i: int|
            0 <= i < methods.len() && text::ascii_uppercase(#[trigger] methods[i])
                == text::ascii_uppercase(method);
        assert(twice[i] == text::uppercase(method));
    }
}

} // verus!
