//! What came of the requests, counted.

use std::collections::HashMap;

use vstd::multiset::Multiset;
use vstd::prelude::*;

use crate::counts;
use crate::counts::CategoryCounts;
use crate::latency;
use crate::latency::LatencyHistogram;
use crate::models::{AggregatedStats, ReplayOutcome};
use crate::text;

verus! {

broadcast use vstd::std_specs::hash::group_hash_axioms;

/// The longest latency that is told apart, in microseconds.
pub const MAX_LATENCY_US: u64 = 60_000_000;

/// The shortest latency that is recorded, in microseconds.
pub const MIN_LATENCY_US: u64 = 1;

/// The significant digits of a recorded latency.
pub const LATENCY_DIGITS: u8 = 3;

/// The kind of an error, by the words in it.
pub open spec fn error_category(error: Seq<char>) -> Seq<char> {
    let lower = text::lowercase(error);
    if text::has_substring(lower, "timeout"@) || text::has_substring(lower, "timed out"@) {
        "timeout"@
    } else if text::has_substring(lower, "connection refused"@) {
        "connection-refused"@
    } else if text::has_substring(lower, "tls"@) || text::has_substring(lower, "ssl"@)
        || text::has_substring(lower, "certificate"@) {
        "tls"@
    } else {
        "other"@
    }
}

/// The kind of an error.
pub fn categorize_error(err: &str) -> (r: String)
    ensures
        r@ == error_category(err@),
{
    let lower = err.to_lowercase();
    if text::contains_text(lower.as_str(), "timeout") || text::contains_text(
        lower.as_str(),
        "timed out",
    ) {
        "timeout".to_owned()
    } else if text::contains_text(lower.as_str(), "connection refused") {
        "connection-refused".to_owned()
    } else if text::contains_text(lower.as_str(), "tls") || text::contains_text(
        lower.as_str(),
        "ssl",
    ) || text::contains_text(lower.as_str(), "certificate") {
        "tls".to_owned()
    } else {
        "other".to_owned()
    }
}

/// An error that has `timeout` or `timed out` in it, in any case of its letters, is a
/// timeout, whatever else is in it.
pub proof fn timeouts_come_first(error: Seq<char>, before: Seq<char>, after: Seq<char>)
    requires
        text::lowercase(error) == before + "timeout"@ + after || text::lowercase(error) == before
            + "timed out"@ + after,
    ensures
        error_category(error) == "timeout"@,
{
    text::substring_stands_between(text::lowercase(error), "timeout"@);
    text::substring_stands_between(text::lowercase(error), "timed out"@);
}

/// An error that is no timeout and has `connection refused` in it is a refused
/// connection.
pub proof fn refused_connections_come_second(
    error: Seq<char>,
    before: Seq<char>,
    after: Seq<char>,
)
    requires
        text::lowercase(error) == before + "connection refused"@ + after,
        forall|a: Seq<char>, b: Seq<char>|
            text::lowercase(error) != #[trigger] (a + "timeout"@ + b),
        forall|a: Seq<char>, b: Seq<char>|
            text::lowercase(error) != #[trigger] (a + "timed out"@ + b),
    ensures
        error_category(error) == "connection-refused"@,
{
    text::substring_stands_between(text::lowercase(error), "timeout"@);
    text::substring_stands_between(text::lowercase(error), "timed out"@);
    text::substring_stands_between(text::lowercase(error), "connection refused"@);
}

/// An error that is neither of these and has `tls`, `ssl` or `certificate` in it is one
/// of TLS; and any that has none of the words is of the last kind.
pub proof fn tls_errors_come_third(error: Seq<char>)
    requires
        forall|a: Seq<char>, b: Seq<char>|
            text::lowercase(error) != #[trigger] (a + "timeout"@ + b),
        forall|a: Seq<char>, b: Seq<char>|
            text::lowercase(error) != #[trigger] (a + "timed out"@ + b),
        forall|a: Seq<char>, b: Seq<char>|
            text::lowercase(error) != #[trigger] (a + "connection refused"@ + b),
    ensures
        ({
            let lower = text::lowercase(error);
            let of_tls = (exists|a: Seq<char>, b: Seq<char>| lower == #[trigger] (a + "tls"@ + b))
                || (exists|a: Seq<char>, b: Seq<char>| lower == #[trigger] (a + "ssl"@ + b)) || (
            exists|a: Seq<char>, b: Seq<char>| lower == #[trigger] (a + "certificate"@ + b));
            error_category(error) == if of_tls {
                "tls"@
            } else {
                "other"@
            }
        }),
{
    let lower = text::lowercase(error);
    text::substring_stands_between(lower, "timeout"@);
    text::substring_stands_between(lower, "timed out"@);
    text::substring_stands_between(lower, "connection refused"@);
    text::substring_stands_between(lower, "tls"@);
    text::substring_stands_between(lower, "ssl"@);
    text::substring_stands_between(lower, "certificate"@);
}

/// What is known of a number of outcomes.
#[verifier::ext_equal]
pub struct Tally {
    pub attempted: nat,
    pub succeeded: nat,
    pub failed: nat,
    pub statuses: Map<u16, u64>,
    pub errors: Map<Seq<char>, u64>,
    pub latencies: Multiset<u64>,
}

/// Nothing yet.
pub open spec fn nothing() -> Tally {
    Tally {
        attempted: 0,
        succeeded: 0,
        failed: 0,
        statuses: Map::empty(),
        errors: Map::empty(),
        latencies: Multiset::empty(),
    }
}

/// The counts with one more of a key.
pub open spec fn one_more<K>(counts: Map<K, u64>, key: K) -> Map<K, u64> {
    counts.insert(
        key,
        if counts.contains_key(key) {
            (counts[key] + 1) as u64
        } else {
            1
        },
    )
}

/// Whether a request was answered with a status of the 200s.
pub open spec fn is_success(status: Option<u16>) -> bool {
    status matches Some(s) && 200 <= s < 300
}

/// A latency as it is recorded.
pub open spec fn clamped(latency_us: u64) -> u64 {
    if latency_us > MAX_LATENCY_US {
        MAX_LATENCY_US
    } else {
        latency_us
    }
}

/// What is known after one more outcome. A dry run counts as an attempt that succeeded
/// and as nothing else.
pub open spec fn tallied(t: Tally, o: ReplayOutcome) -> Tally {
    if o.was_dry_run {
        Tally { attempted: t.attempted + 1, succeeded: t.succeeded + 1, ..t }
    } else {
        Tally {
            attempted: t.attempted + 1,
            succeeded: if is_success(o.status) {
                t.succeeded + 1
            } else {
                t.succeeded
            },
            failed: if is_success(o.status) {
                t.failed
            } else {
                t.failed + 1
            },
            statuses: match o.status {
                Some(s) => one_more(t.statuses, s),
                None => t.statuses,
            },
            errors: match o.error {
                Some(e) => one_more(t.errors, error_category(e@)),
                None => t.errors,
            },
            latencies: if o.latency_us > 0 {
                t.latencies.insert(clamped(o.latency_us))
            } else {
                t.latencies
            },
        }
    }
}

/// The kinds of errors after one more outcome, in the order in which they first came up.
pub open spec fn errors_after(list: Seq<(Seq<char>, u64)>, o: ReplayOutcome) -> Seq<
    (Seq<char>, u64),
> {
    match o.error {
        Some(e) if !o.was_dry_run => counts::counted_once_more(list, error_category(e@)),
        _ => list,
    }
}

/// What is known after a list of outcomes.
pub open spec fn tally_from(start: Tally, outcomes: Seq<ReplayOutcome>) -> Tally {
    outcomes.fold_left(start, |t: Tally, o: ReplayOutcome| tallied(t, o))
}

/// What is known of a list of outcomes.
pub open spec fn tally_of(outcomes: Seq<ReplayOutcome>) -> Tally {
    tally_from(nothing(), outcomes)
}

/// Two outcomes can come in either order.
proof fn two_outcomes_commute(t: Tally, a: ReplayOutcome, b: ReplayOutcome)
    ensures
        tallied(tallied(t, a), b) == tallied(tallied(t, b), a),
{
    let ab = tallied(tallied(t, a), b);
    let ba = tallied(tallied(t, b), a);
    assert(ab.statuses =~= ba.statuses);
    assert(ab.errors =~= ba.errors);
    assert(ab.latencies =~= ba.latencies);
    assert(ab =~= ba);
}

/// The order in which outcomes come in does not count, whatever was counted before.
pub proof fn arrival_order_does_not_count(
    start: Tally,
    a: Seq<ReplayOutcome>,
    b: Seq<ReplayOutcome>,
)
    requires
        a.to_multiset() == b.to_multiset(),
    ensures
        tally_from(start, a) == tally_from(start, b),
{
    let f = |t: Tally, o: ReplayOutcome| tallied(t, o);
    assert forall|x: ReplayOutcome, y: ReplayOutcome, t: Tally| #[trigger]
        f(f(t, x), y) == f(f(t, y), x) by {
        two_outcomes_commute(t, x, y);
    }
    vstd::seq_lib::lemma_fold_left_permutation(a, b, f, start);
}

/// Every outcome is counted once, as a success or as a failure, and no count exceeds
/// the number of outcomes.
pub proof fn every_outcome_is_counted(outcomes: Seq<ReplayOutcome>)
    ensures
        tally_of(outcomes).attempted == outcomes.len(),
        tally_of(outcomes).succeeded + tally_of(outcomes).failed == outcomes.len(),
        tally_of(outcomes).latencies.len() <= outcomes.len(),
    decreases outcomes.len(),
{
    if outcomes.len() > 0 {
        let f = |t: Tally, o: ReplayOutcome| tallied(t, o);
        every_outcome_is_counted(outcomes.drop_last());
        assert(outcomes.fold_left(nothing(), f) == f(
            outcomes.drop_last().fold_left(nothing(), f),
            outcomes.last(),
        ));
    }
}

/// One more outcome at the end of a list.
proof fn one_more_outcome(outcomes: Seq<ReplayOutcome>)
    requires
        outcomes.len() > 0,
    ensures
        tally_of(outcomes) == tallied(tally_of(outcomes.drop_last()), outcomes.last()),
{
}

/// The latencies of a list of outcomes: those of all outcomes that are no dry run and
/// took any time, whatever their status, cut off at a minute. Each is there as often as
/// there are such outcomes.
pub proof fn every_latency_is_recorded(outcomes: Seq<ReplayOutcome>, latency_us: u64)
    ensures
        tally_of(outcomes).latencies.count(latency_us) == outcomes.filter(
            |o: ReplayOutcome|
                !o.was_dry_run && o.latency_us > 0 && (if o.latency_us > 60_000_000 {
                    60_000_000u64
                } else {
                    o.latency_us
                }) == latency_us,
        ).len(),
        tally_of(outcomes).latencies.len() == outcomes.filter(
            |o: ReplayOutcome| !o.was_dry_run && o.latency_us > 0,
        ).len(),
    decreases outcomes.len(),
{
    broadcast use vstd::multiset::group_multiset_axioms;
    broadcast use vstd::multiset::group_multiset_properties;

    reveal(Seq::filter);
    if outcomes.len() > 0 {
        one_more_outcome(outcomes);
        every_latency_is_recorded(outcomes.drop_last(), latency_us);
    }
}

/// What succeeded of a list of outcomes: the dry runs, and what was answered with a
/// status from 200 to 299. All else failed.
pub proof fn successes_are_dry_runs_and_2xx(outcomes: Seq<ReplayOutcome>)
    ensures
        tally_of(outcomes).succeeded == outcomes.filter(
            |o: ReplayOutcome|
                o.was_dry_run || (o.status is Some && 200 <= o.status->Some_0 <= 299),
        ).len(),
        tally_of(outcomes).failed == outcomes.filter(
            |o: ReplayOutcome|
                !o.was_dry_run && !(o.status is Some && 200 <= o.status->Some_0 <= 299),
        ).len(),
    decreases outcomes.len(),
{
    reveal(Seq::filter);
    if outcomes.len() > 0 {
        one_more_outcome(outcomes);
        successes_are_dry_runs_and_2xx(outcomes.drop_last());
    }
}

/// The count of a status is the number of outcomes with it that are no dry runs; a
/// status that no such outcome has is not counted.
pub proof fn statuses_are_counted(outcomes: Seq<ReplayOutcome>, status: u16)
    requires
        outcomes.len() <= u64::MAX,
    ensures
        ({
            let n = outcomes.filter(
                |o: ReplayOutcome| !o.was_dry_run && o.status == Some(status),
            ).len();
            let counts = tally_of(outcomes).statuses;
            &&& n <= outcomes.len()
            &&& counts.contains_key(status) <==> n > 0
            &&& n > 0 ==> counts[status] == n
        }),
    decreases outcomes.len(),
{
    reveal(Seq::filter);
    if outcomes.len() > 0 {
        one_more_outcome(outcomes);
        statuses_are_counted(outcomes.drop_last(), status);
    }
}

/// The count of a kind of errors is the number of outcomes that are no dry runs and
/// have an error of that kind.
pub proof fn errors_are_counted(outcomes: Seq<ReplayOutcome>, category: Seq<char>)
    requires
        outcomes.len() <= u64::MAX,
    ensures
        ({
            let n = outcomes.filter(
                |o: ReplayOutcome|
                    !o.was_dry_run && o.error is Some && error_category(o.error->Some_0@)
                        == category,
            ).len();
            let counts = tally_of(outcomes).errors;
            &&& n <= outcomes.len()
            &&& counts.contains_key(category) <==> n > 0
            &&& n > 0 ==> counts[category] == n
        }),
    decreases outcomes.len(),
{
    reveal(Seq::filter);
    if outcomes.len() > 0 {
        one_more_outcome(outcomes);
        errors_are_counted(outcomes.drop_last(), category);
    }
}

/// The counters of a run.
pub struct StatsAccumulator {
    pub total_lines: u64,
    pub parse_errors: u64,
    pub filtered_count: u64,
    pub attempted: u64,
    pub succeeded: u64,
    pub failed: u64,
    pub status_distribution: HashMap<u16, u64>,
    pub error_categories: CategoryCounts,
    pub histogram: LatencyHistogram,
}

impl StatsAccumulator {
    /// What the counters say of the outcomes.
    pub open spec fn tally(&self) -> Tally {
        Tally {
            attempted: self.attempted as nat,
            succeeded: self.succeeded as nat,
            failed: self.failed as nat,
            statuses: self.status_distribution@,
            errors: self.error_categories@,
            latencies: latency::recorded(self.histogram),
        }
    }

    /// The counters fit each other: what was attempted has succeeded or failed, nothing
    /// was counted more often than there were attempts, and the histogram takes every
    /// latency.
    pub open spec fn is_consistent(&self) -> bool {
        &&& self.attempted == self.succeeded + self.failed
        &&& forall|s: u16| #[trigger]
            self.status_distribution@.contains_key(s) ==> self.status_distribution@[s]
                <= self.attempted
        &&& forall|c: Seq<char>| #[trigger]
            self.error_categories@.contains_key(c) ==> self.error_categories@[c] <= self.attempted
        &&& latency::recorded(self.histogram).len() <= self.attempted
        &&& latency::limits(self.histogram) == (MIN_LATENCY_US, MAX_LATENCY_US, LATENCY_DIGITS)
    }

    /// Counters at zero.
    pub fn new() -> (r: Self)
        ensures
            r.is_consistent(),
            r.tally() == nothing(),
            r.attempted == 0,
            r.succeeded == 0,
            r.failed == 0,
            r.status_distribution@ == Map::<u16, u64>::empty(),
            latency::recorded(r.histogram) == Multiset::<u64>::empty(),
            latency::limits(r.histogram) == (1u64, 60_000_000u64, 3u8),
            r.error_categories.listed() == Seq::<(String, u64)>::empty(),
            r.total_lines == 0,
            r.parse_errors == 0,
            r.filtered_count == 0,
    {
        let histogram = LatencyHistogram::with_bounds(
            MIN_LATENCY_US,
            MAX_LATENCY_US,
            LATENCY_DIGITS,
        ).unwrap();
        let r = StatsAccumulator {
            total_lines: 0,
            parse_errors: 0,
            filtered_count: 0,
            attempted: 0,
            succeeded: 0,
            failed: 0,
            status_distribution: HashMap::new(),
            error_categories: CategoryCounts::new(),
            histogram,
        };
        assert(r.tally() =~= nothing());
        r
    }

    /// Counts one outcome.
    pub fn record_outcome(&mut self, outcome: &ReplayOutcome)
        requires
            old(self).is_consistent(),
            old(self).attempted < u64::MAX,
        ensures
            final(self).is_consistent(),
            final(self).tally() == tallied(old(self).tally(), *outcome),
            final(self).attempted == old(self).attempted + 1,
            outcome.was_dry_run || (outcome.status matches Some(s) && 200 <= s <= 299) ==> {
                &&& final(self).succeeded == old(self).succeeded + 1
                &&& final(self).failed == old(self).failed
            },
            !outcome.was_dry_run && !(outcome.status matches Some(s) && 200 <= s <= 299) ==> {
                &&& final(self).succeeded == old(self).succeeded
                &&& final(self).failed == old(self).failed + 1
            },
            !outcome.was_dry_run && outcome.latency_us > 0 ==> latency::recorded(
                final(self).histogram,
            ) == latency::recorded(old(self).histogram).insert(
                if outcome.latency_us > 60_000_000 {
                    60_000_000
                } else {
                    outcome.latency_us
                },
            ),
            outcome.was_dry_run || outcome.latency_us == 0 ==> latency::recorded(
                final(self).histogram,
            ) == latency::recorded(old(self).histogram),
            outcome.was_dry_run || outcome.status is None ==> final(self).status_distribution@
                == old(self).status_distribution@,
            !outcome.was_dry_run ==> (outcome.status matches Some(s)
                ==> final(self).status_distribution@ == old(self).status_distribution@.insert(
                s,
                if old(self).status_distribution@.contains_key(s) {
                    (old(self).status_distribution@[s] + 1) as u64
                } else {
                    1
                },
            )),
            outcome.was_dry_run || outcome.error is None ==> final(self).error_categories@
                == old(self).error_categories@,
            !outcome.was_dry_run ==> (outcome.error matches Some(e)
                ==> final(self).error_categories@ == old(self).error_categories@.insert(
                error_category(e@),
                if old(self).error_categories@.contains_key(error_category(e@)) {
                    (old(self).error_categories@[error_category(e@)] + 1) as u64
                } else {
                    1
                },
            )),
            counts::names_and_counts(final(self).error_categories.listed()) == errors_after(
                counts::names_and_counts(old(self).error_categories.listed()),
                *outcome,
            ),
            final(self).total_lines == old(self).total_lines,
            final(self).parse_errors == old(self).parse_errors,
            final(self).filtered_count == old(self).filtered_count,
    {
        self.attempted = self.attempted + 1;
        if outcome.was_dry_run {
            self.succeeded = self.succeeded + 1;
            return;
        }
        match outcome.status {
            Some(status) => {
                let count: u64 = match self.status_distribution.get(&status) {
                    Some(n) => *n,
                    None => 0,
                };
                self.status_distribution.insert(status, count + 1);
                if 200 <= status && status < 300 {
                    self.succeeded = self.succeeded + 1;
                } else {
                    self.failed = self.failed + 1;
                }
            },
            None => {
                self.failed = self.failed + 1;
            },
        }
        if let Some(err) = &outcome.error {
            self.error_categories.increment(categorize_error(err.as_str()));
        }
        if outcome.latency_us > 0 {
            let value: u64 = if outcome.latency_us > MAX_LATENCY_US {
                MAX_LATENCY_US
            } else {
                outcome.latency_us
            };
            self.histogram.record(value);
        }
        assert(self.tally() =~= tallied(old(self).tally(), *outcome));
    }

    /// The statistics of the run. The times that make the throughput are not among them.
    pub fn finalize(self) -> (r: AggregatedStats)
        requires
            self.is_consistent(),
        ensures
            r.total_lines == self.total_lines,
            r.parse_errors == self.parse_errors,
            r.filtered_count == self.filtered_count,
            r.attempted == self.attempted,
            r.succeeded == self.succeeded,
            r.failed == self.failed,
            r.status_distribution == self.status_distribution,
            r.error_categories == self.error_categories,
            r.p50_us == latency::percentile(self.histogram, 50),
            r.p95_us == latency::percentile(self.histogram, 95),
            r.p99_us == latency::percentile(self.histogram, 99),
            r.p50_us <= r.p95_us <= r.p99_us,
            latency::recorded(self.histogram).len() == 0 ==> r.p99_us == 0,
            latency::is_near_one(latency::recorded(self.histogram), r.p50_us),
            latency::has_rank(latency::recorded(self.histogram), r.p50_us, 50),
            latency::is_lowest(latency::recorded(self.histogram), r.p50_us, 50),
            latency::is_near_one(latency::recorded(self.histogram), r.p95_us),
            latency::has_rank(latency::recorded(self.histogram), r.p95_us, 95),
            latency::is_lowest(latency::recorded(self.histogram), r.p95_us, 95),
            latency::is_near_one(latency::recorded(self.histogram), r.p99_us),
            latency::has_rank(latency::recorded(self.histogram), r.p99_us, 99),
            latency::is_lowest(latency::recorded(self.histogram), r.p99_us, 99),
    {
        let p50 = self.histogram.value_at_percentile(50);
        let p95 = self.histogram.value_at_percentile(95);
        let p99 = self.histogram.value_at_percentile(99);
        AggregatedStats {
            total_lines: self.total_lines,
            parse_errors: self.parse_errors,
            filtered_count: self.filtered_count,
            attempted: self.attempted,
            succeeded: self.succeeded,
            failed: self.failed,
            status_distribution: self.status_distribution,
            error_categories: self.error_categories,
            p50_us: p50,
            p95_us: p95,
            p99_us: p99,
        }
    }
}

} // verus!
