//! The decisions of a run, from one line of input to the next.
//!
//! Whoever runs the loop asks [`Progress::wants_more`], reads a line or is told to stop,
//! hands in what happened, parses the text that comes back and hands in the record.
//! Every line ends in one of six ways, and is counted by the way it ends.

use vstd::prelude::*;

use crate::error::TrafficReplayerError;
use crate::filters::FilterChain;
use crate::headers;
use crate::models::{ReplayRecord, SanitizedReplayRecord};
use crate::sanitize::record;
use crate::sanitize::RecordSanitizer;
use crate::stats::StatsAccumulator;
use crate::text;

verus! {

/// How a line ends.
pub enum LineFate {
    /// It could not be read.
    Unreadable,
    /// There was nothing on it.
    Blank,
    /// It was no record.
    Malformed,
    /// The filters stopped its record.
    Filtered,
    /// Its record could not be sanitized.
    Unsanitizable,
    /// Its record is sent.
    Sent,
}

/// What was counted.
pub struct Counts {
    pub total_lines: nat,
    pub parse_errors: nat,
    pub filtered: nat,
    pub dispatched: nat,
}

/// Whether a line that ends so is a parse error.
pub open spec fn is_parse_error(fate: LineFate) -> bool {
    fate is Unreadable || fate is Malformed || fate is Unsanitizable
}

/// Whether a line that ends so counts against the limit of records.
pub open spec fn is_dispatched(fate: LineFate) -> bool {
    fate is Unsanitizable || fate is Sent
}

/// The counts after one more line.
pub open spec fn counted(c: Counts, fate: LineFate) -> Counts {
    Counts {
        total_lines: c.total_lines + 1,
        parse_errors: if is_parse_error(fate) {
            c.parse_errors + 1
        } else {
            c.parse_errors
        },
        filtered: if fate is Filtered {
            c.filtered + 1
        } else {
            c.filtered
        },
        dispatched: if is_dispatched(fate) {
            c.dispatched + 1
        } else {
            c.dispatched
        },
    }
}

/// Whether the limit of records, if there is one, is reached.
pub open spec fn limit_reached(c: Counts, max_records: Option<u64>) -> bool {
    max_records matches Some(max) && c.dispatched >= max
}

/// The counts of a run over lines that would end so: it stops at the limit.
pub open spec fn run_counts(fates: Seq<LineFate>, max_records: Option<u64>) -> Counts
    decreases fates.len(),
{
    if fates.len() == 0 {
        Counts { total_lines: 0, parse_errors: 0, filtered: 0, dispatched: 0 }
    } else {
        let before = run_counts(fates.drop_last(), max_records);
        if limit_reached(before, max_records) {
            before
        } else {
            counted(before, fates.last())
        }
    }
}

/// A run dispatches no more records than its limit.
pub proof fn limit_is_kept(fates: Seq<LineFate>, max_records: Option<u64>)
    ensures
        max_records matches Some(max) ==> run_counts(fates, max_records).dispatched <= max,
    decreases fates.len(),
{
    if fates.len() > 0 {
        limit_is_kept(fates.drop_last(), max_records);
    }
}

/// How many of the lines end in one way.
pub open spec fn how_many(fates: Seq<LineFate>, fate: LineFate) -> nat
    decreases fates.len(),
{
    if fates.len() == 0 {
        0
    } else {
        how_many(fates.drop_last(), fate) + if fates.last() == fate {
            1nat
        } else {
            0nat
        }
    }
}

/// The lines that a run reads: it stops at the limit.
pub open spec fn lines_read(fates: Seq<LineFate>, max_records: Option<u64>) -> Seq<LineFate>
    decreases fates.len(),
{
    if fates.len() == 0 {
        Seq::empty()
    } else {
        let before = lines_read(fates.drop_last(), max_records);
        if limit_reached(run_counts(fates.drop_last(), max_records), max_records) {
            before
        } else {
            before.push(fates.last())
        }
    }
}

/// A run reads its lines from the first one on, and all of them where it does not reach
/// its limit.
pub proof fn lines_are_read_in_order(fates: Seq<LineFate>, max_records: Option<u64>)
    ensures
        lines_read(fates, max_records).len() <= fates.len(),
        lines_read(fates, max_records) == fates.take(lines_read(fates, max_records).len() as int),
        !limit_reached(run_counts(fates, max_records), max_records) ==> lines_read(
            fates,
            max_records,
        ) == fates,
    decreases fates.len(),
{
    if fates.len() > 0 {
        let before = fates.drop_last();
        lines_are_read_in_order(before, max_records);
        let read = lines_read(fates, max_records);
        assert(read =~= fates.take(read.len() as int));
        if !limit_reached(run_counts(fates, max_records), max_records) {
            assert(read =~= fates);
        }
    }
}

/// Every line that a run reads is counted once, by the way it ends.
pub proof fn every_line_is_counted(fates: Seq<LineFate>, max_records: Option<u64>)
    ensures
        ({
            let c = run_counts(fates, max_records);
            let read = lines_read(fates, max_records);
            &&& c.total_lines == read.len()
            &&& c.parse_errors == how_many(read, LineFate::Unreadable) + how_many(
                read,
                LineFate::Malformed,
            ) + how_many(read, LineFate::Unsanitizable)
            &&& c.filtered == how_many(read, LineFate::Filtered)
            &&& c.dispatched == how_many(read, LineFate::Unsanitizable) + how_many(
                read,
                LineFate::Sent,
            )
            &&& c.total_lines == c.parse_errors + c.filtered + how_many(read, LineFate::Blank)
                + how_many(read, LineFate::Sent)
        }),
    decreases fates.len(),
{
    if fates.len() > 0 {
        let before = lines_read(fates.drop_last(), max_records);
        every_line_is_counted(fates.drop_last(), max_records);
        assert(before.push(fates.last()).drop_last() =~= before);
    }
}

/// Counting the lines that end in one way is counting how often that way occurs.
pub proof fn how_many_is_the_count(fates: Seq<LineFate>, fate: LineFate)
    ensures
        how_many(fates, fate) == fates.to_multiset().count(fate),
    decreases fates.len(),
{
    broadcast use vstd::seq_lib::group_to_multiset_ensures;
    broadcast use vstd::multiset::group_multiset_axioms;

    if fates.len() > 0 {
        how_many_is_the_count(fates.drop_last(), fate);
        assert(fates =~= fates.drop_last().push(fates.last()));
    }
}

/// A run that stops before its lines end has a limit, and the lines that it read hold
/// exactly as many records that were sent, or could not be sanitized, as the limit says.
/// No other line uses the limit up.
pub proof fn early_stop_is_at_the_limit(fates: Seq<LineFate>, max_records: Option<u64>)
    requires
        lines_read(fates, max_records).len() < fates.len(),
    ensures
        max_records matches Some(max) && how_many(
            lines_read(fates, max_records),
            LineFate::Sent,
        ) + how_many(lines_read(fates, max_records), LineFate::Unsanitizable) == max,
{
    lines_are_read_in_order(fates, max_records);
    every_line_is_counted(fates, max_records);
    limit_is_kept(fates, max_records);
}

/// A run reads on while fewer records than its limit were sent or could not be
/// sanitized.
pub proof fn run_below_the_limit_reads_on(fates: Seq<LineFate>, max_records: Option<u64>)
    requires
        max_records matches Some(max) ==> how_many(fates, LineFate::Sent) + how_many(
            fates,
            LineFate::Unsanitizable,
        ) < max,
    ensures
        lines_read(fates, max_records) == fates,
{
    lines_are_read_in_order(fates, max_records);
    let read = lines_read(fates, max_records);
    if read.len() < fates.len() {
        early_stop_is_at_the_limit(fates, max_records);
        fewer_lines_hold_fewer(fates, read.len() as int, LineFate::Sent);
        fewer_lines_hold_fewer(fates, read.len() as int, LineFate::Unsanitizable);
    }
    assert(fates.take(fates.len() as int) =~= fates);
}

/// A run stops right behind the record that reaches its limit: before the last line that
/// it reads, fewer records than the limit were sent or could not be sanitized.
pub proof fn nothing_is_read_behind_the_limit(fates: Seq<LineFate>, max: u64)
    requires
        lines_read(fates, Some(max)).len() > 0,
    ensures
        ({
            let before = lines_read(fates, Some(max)).drop_last();
            how_many(before, LineFate::Sent) + how_many(before, LineFate::Unsanitizable) < max
        }),
    decreases fates.len(),
{
    let before = fates.drop_last();
    if limit_reached(run_counts(before, Some(max)), Some(max)) {
        nothing_is_read_behind_the_limit(before, max);
    } else {
        every_line_is_counted(before, Some(max));
        let read = lines_read(before, Some(max));
        assert(lines_read(fates, Some(max)).drop_last() =~= read);
    }
}

/// The first lines hold no more of one way to end than all of them.
proof fn fewer_lines_hold_fewer(fates: Seq<LineFate>, n: int, fate: LineFate)
    requires
        0 <= n <= fates.len(),
    ensures
        how_many(fates.take(n), fate) <= how_many(fates, fate),
    decreases fates.len(),
{
    if n < fates.len() {
        assert(fates.drop_last().take(n) =~= fates.take(n));
        fewer_lines_hold_fewer(fates.drop_last(), n, fate);
    } else {
        assert(fates.take(n) =~= fates);
    }
}

/// What happened instead of, or with, the next line.
pub enum LineEvent {
    /// The run was interrupted.
    Cancelled,
    /// There are no more lines.
    EndOfInput,
    /// A line could not be read.
    ReadFailed,
    /// A line was read.
    Line(String),
}

/// What is to be done next.
pub enum LineAction {
    /// Leave the loop.
    Stop,
    /// Go on to the next line.
    Skip,
    /// Parse this text as a record.
    Parse(String),
}

/// What is to be done with a record.
pub enum RecordAction {
    /// Nothing: the filters stopped it.
    Skip,
    /// Nothing: it could not be sanitized.
    Fail(TrafficReplayerError),
    /// Send this.
    Send(SanitizedReplayRecord),
    /// Give up: a header map cannot hold the headers of the record.
    GiveUp,
}

/// How far a run has come.
#[derive(Debug)]
pub struct Progress {
    pub total_lines: u64,
    pub parse_errors: u64,
    pub filtered_count: u64,
    pub records_dispatched: u64,
    pub interrupted: bool,
}

impl Progress {
    /// What was counted.
    pub open spec fn counts(&self) -> Counts {
        Counts {
            total_lines: self.total_lines as nat,
            parse_errors: self.parse_errors as nat,
            filtered: self.filtered_count as nat,
            dispatched: self.records_dispatched as nat,
        }
    }

    /// No count exceeds the number of lines.
    pub open spec fn is_consistent(&self) -> bool {
        &&& self.parse_errors <= self.total_lines
        &&& self.filtered_count <= self.total_lines
        &&& self.records_dispatched <= self.total_lines
    }

    /// Whether one more line can be counted.
    pub open spec fn has_room(&self) -> bool {
        self.is_consistent() && self.total_lines < u64::MAX
    }

    /// The start of a run.
    pub fn new() -> (r: Self)
        ensures
            r.is_consistent(),
            r.counts() == run_counts(Seq::empty(), None),
            r.total_lines == 0,
            r.parse_errors == 0,
            r.filtered_count == 0,
            r.records_dispatched == 0,
            !r.interrupted,
    {
        Progress {
            total_lines: 0,
            parse_errors: 0,
            filtered_count: 0,
            records_dispatched: 0,
            interrupted: false,
        }
    }

    /// Whether another line is to be read.
    pub fn wants_more(&self, max_records: Option<u64>) -> (r: bool)
        ensures
            r == !limit_reached(self.counts(), max_records),
            max_records is None ==> r,
            max_records matches Some(max) ==> (r <==> self.records_dispatched < max),
    {
        match max_records {
            Some(max) => self.records_dispatched < max,
            None => true,
        }
    }

    /// Counts a line by the way it ends.
    fn count(&mut self, fate: LineFate)
        requires
            old(self).has_room(),
        ensures
            final(self).is_consistent(),
            final(self).counts() == counted(old(self).counts(), fate),
            final(self).interrupted == old(self).interrupted,
    {
        self.total_lines = self.total_lines + 1;
        match fate {
            LineFate::Unreadable | LineFate::Malformed => {
                self.parse_errors = self.parse_errors + 1;
            },
            LineFate::Blank => {},
            LineFate::Filtered => {
                self.filtered_count = self.filtered_count + 1;
            },
            LineFate::Unsanitizable => {
                self.records_dispatched = self.records_dispatched + 1;
                self.parse_errors = self.parse_errors + 1;
            },
            LineFate::Sent => {
                self.records_dispatched = self.records_dispatched + 1;
            },
        }
    }

    /// Takes what came of reading a line. A line with something on it is handed back
    /// without the space around it, to be parsed; it is counted once it is known how it
    /// ends.
    pub fn on_event(&mut self, event: LineEvent) -> (r: LineAction)
        requires
            old(self).has_room(),
        ensures
            final(self).is_consistent(),
            final(self).interrupted == (old(self).interrupted || event is Cancelled),
            match event {
                LineEvent::Cancelled => r is Stop && final(self).counts() == old(self).counts(),
                LineEvent::EndOfInput => r is Stop && final(self).counts() == old(self).counts(),
                LineEvent::ReadFailed => r is Skip && final(self).counts() == counted(
                    old(self).counts(),
                    LineFate::Unreadable,
                ),
                LineEvent::Line(line) => if text::trimmed(line@).len() == 0 {
                    r is Skip && final(self).counts() == counted(
                        old(self).counts(),
                        LineFate::Blank,
                    )
                } else {
                    &&& r matches LineAction::Parse(t)
                    &&& t@ == text::trimmed(line@)
                    &&& *final(self) == *old(self)
                },
            },
            final(self).filtered_count == old(self).filtered_count,
            final(self).records_dispatched == old(self).records_dispatched,
            event is ReadFailed ==> final(self).total_lines == old(self).total_lines + 1
                && final(self).parse_errors == old(self).parse_errors + 1,
            event !is ReadFailed ==> final(self).parse_errors == old(self).parse_errors,
            event is Cancelled || event is EndOfInput ==> final(self).total_lines
                == old(self).total_lines,
            r is Stop <==> event is Cancelled || event is EndOfInput,
            event matches LineEvent::Line(line) ==> {
                &&& r is Skip <==> text::trimmed(line@).len() == 0
                &&& r is Skip ==> final(self).total_lines == old(self).total_lines + 1
                &&& r is Parse ==> final(self).total_lines == old(self).total_lines
            },
    {
        match event {
            LineEvent::Cancelled => {
                self.interrupted = true;
                LineAction::Stop
            },
            LineEvent::EndOfInput => LineAction::Stop,
            LineEvent::ReadFailed => {
                self.count(LineFate::Unreadable);
                LineAction::Skip
            },
            LineEvent::Line(line) => {
                let trimmed = text::trim(line.as_str());
                if trimmed.as_str().unicode_len() == 0 {
                    self.count(LineFate::Blank);
                    LineAction::Skip
                } else {
                    LineAction::Parse(trimmed)
                }
            },
        }
    }

    /// Takes that a line was no record.
    pub fn on_parse_error(&mut self)
        requires
            old(self).has_room(),
        ensures
            final(self).is_consistent(),
            final(self).counts() == counted(old(self).counts(), LineFate::Malformed),
            final(self).total_lines == old(self).total_lines + 1,
            final(self).parse_errors == old(self).parse_errors + 1,
            final(self).filtered_count == old(self).filtered_count,
            final(self).records_dispatched == old(self).records_dispatched,
            final(self).interrupted == old(self).interrupted,
    {
        self.count(LineFate::Malformed);
    }

    /// Takes the record of a line. What the filters let through counts against the
    /// limit, and is sanitized and handed back to be sent. A record with more headers than
    /// a header map can hold is not counted.
    pub fn on_record(
        &mut self,
        record: ReplayRecord,
        filters: &FilterChain,
        sanitizer: &RecordSanitizer,
        base_url: &str,
    ) -> (r: RecordAction)
        requires
            old(self).has_room(),
        ensures
            final(self).is_consistent(),
            final(self).interrupted == old(self).interrupted,
            r is GiveUp ==> *final(self) == *old(self),
            r !is GiveUp ==> final(self).counts() == counted(old(self).counts(), record_fate(r)),
            r !is GiveUp ==> final(self).total_lines == old(self).total_lines + 1,
            final(self).filtered_count == old(self).filtered_count + if r is Skip {
                1int
            } else {
                0int
            },
            final(self).parse_errors == old(self).parse_errors + if r is Fail {
                1int
            } else {
                0int
            },
            final(self).records_dispatched == old(self).records_dispatched + if r is Send
                || r is Fail {
                1int
            } else {
                0int
            },
            r is Skip <==> !filters.accepts(record),
            r is Fail <==> filters.accepts(record) && record::record_body(
                record,
                sanitizer.exempt(),
            ) is Err,
            r is GiveUp ==> record::record_headers(record).len() > headers::MAX_HEADER_NAMES,
            r is GiveUp ==> record::record_body(record, sanitizer.exempt()) is Ok,
            r matches RecordAction::Send(s) ==> record::is_sanitized_as(
                record,
                base_url@,
                sanitizer.exempt(),
                Ok(s),
            ),
            r matches RecordAction::Fail(e) ==> record::is_sanitized_as(
                record,
                base_url@,
                sanitizer.exempt(),
                Err(e),
            ),
            r is Send ==> record::sends_clean_json(record, sanitizer.exempt()),
    {
        if !filters.matches(&record) {
            self.count(LineFate::Filtered);
            return RecordAction::Skip;
        }
        match sanitizer.try_sanitize(record, base_url) {
            Some(Ok(request)) => {
                self.count(LineFate::Sent);
                RecordAction::Send(request)
            },
            Some(Err(e)) => {
                self.count(LineFate::Unsanitizable);
                RecordAction::Fail(e)
            },
            None => RecordAction::GiveUp,
        }
    }

    /// The statistics of the outcomes with the counts of the lines.
    pub fn merge_into(&self, stats: StatsAccumulator) -> (r: StatsAccumulator)
        requires
            stats.is_consistent(),
        ensures
            r.is_consistent(),
            r.tally() == stats.tally(),
            r.status_distribution == stats.status_distribution,
            r.error_categories == stats.error_categories,
            r.histogram == stats.histogram,
            r.attempted == stats.attempted,
            r.succeeded == stats.succeeded,
            r.failed == stats.failed,
            r.total_lines == self.total_lines,
            r.parse_errors == self.parse_errors,
            r.filtered_count == self.filtered_count,
    {
        StatsAccumulator {
            total_lines: self.total_lines,
            parse_errors: self.parse_errors,
            filtered_count: self.filtered_count,
            attempted: stats.attempted,
            succeeded: stats.succeeded,
            failed: stats.failed,
            status_distribution: stats.status_distribution,
            error_categories: stats.error_categories,
            histogram: stats.histogram,
        }
    }
}

/// How the line of a record ends that is not given up.
pub open spec fn record_fate(action: RecordAction) -> LineFate {
    match action {
        RecordAction::Skip => LineFate::Filtered,
        RecordAction::Fail(_) => LineFate::Unsanitizable,
        _ => LineFate::Sent,
    }
}

} // verus!
