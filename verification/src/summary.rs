//! The summary of a run.

use vstd::prelude::*;

use crate::models::AggregatedStats;
use crate::text;

verus! {

broadcast use vstd::std_specs::hash::group_hash_axioms;

/// How a run ended.
#[derive(Debug, Clone, Copy, PartialEq, Eq, Structural)]
pub enum RunEnd {
    Completed,
    Fatal,
    Interrupted,
}

/// The exit code of the program.
pub fn exit_code(end: RunEnd) -> (r: i32)
    ensures
        r == (match end {
            RunEnd::Completed => 0i32,
            RunEnd::Fatal => 1i32,
            RunEnd::Interrupted => 2i32,
        }),
{
    match end {
        RunEnd::Completed => 0,
        RunEnd::Fatal => 1,
        RunEnd::Interrupted => 2,
    }
}

/// The line between the parts of a summary.
pub open spec fn rule() -> Seq<char> {
    "─────────────────────────────────────────"@
}

fn rule_text() -> (r: String)
    ensures
        r@ == rule(),
{
    "─────────────────────────────────────────".to_owned()
}

/// The keys below a bound, in their order.
pub open spec fn keys_below(counts: Map<u16, u64>, bound: nat) -> Seq<u16>
    decreases bound,
{
    if bound == 0 {
        Seq::empty()
    } else {
        let before = keys_below(counts, (bound - 1) as nat);
        if counts.contains_key((bound - 1) as u16) {
            before.push((bound - 1) as u16)
        } else {
            before
        }
    }
}

/// A line with a count.
pub open spec fn count_line(label: Seq<char>, count: u64) -> Seq<char> {
    "    "@ + label + ": "@ + text::decimal(count as nat)
}

fn count_line_text(label: &str, count: u64) -> (r: String)
    ensures
        r@ == count_line(label@, count),
{
    "    ".to_owned().concat(label).concat(": ").concat(text::decimal_text(count).as_str())
}

/// The lines of the statuses, from the lowest to the highest.
pub open spec fn status_lines(counts: Map<u16, u64>, statuses: Seq<u16>) -> Seq<Seq<char>> {
    statuses.map_values(|s: u16| count_line(text::decimal(s as nat), counts[s]))
}

/// The lines of the kinds of errors.
pub open spec fn error_lines(entries: Seq<(String, u64)>) -> Seq<Seq<char>> {
    entries.map_values(|e: (String, u64)| count_line(e.0@, e.1))
}

/// The lines that every summary begins with.
pub open spec fn head_lines(
    stats: AggregatedStats,
    elapsed: Seq<char>,
    throughput: Seq<char>,
    interrupted: bool,
) -> Seq<Seq<char>> {
    seq![
        if interrupted {
            "\n[INTERRUPTED] Partial run summary:"@
        } else {
            "\nRun complete — Summary:"@
        },
        rule(),
        "  Lines read:        "@ + text::decimal(stats.total_lines as nat),
        "  Parse errors:      "@ + text::decimal(stats.parse_errors as nat),
        "  Filtered:          "@ + text::decimal(stats.filtered_count as nat),
        "  Attempted:         "@ + text::decimal(stats.attempted as nat),
        "  Succeeded (2xx):   "@ + text::decimal(stats.succeeded as nat),
        "  Failed:            "@ + text::decimal(stats.failed as nat),
        "  Elapsed:           "@ + elapsed + "s"@,
        "  Throughput:        "@ + throughput + " req/s"@,
        rule(),
        "  Latency (µs):"@,
        "    p50:  "@ + text::decimal(stats.p50_us as nat),
        "    p95:  "@ + text::decimal(stats.p95_us as nat),
        "    p99:  "@ + text::decimal(stats.p99_us as nat),
    ]
}

/// A part of a summary: nothing where it has no lines, else a line between the parts,
/// the title and the lines.
pub open spec fn part(title: Seq<char>, lines: Seq<Seq<char>>) -> Seq<Seq<char>> {
    if lines.len() == 0 {
        Seq::empty()
    } else {
        seq![rule(), title] + lines
    }
}

/// The lines of a summary.
pub open spec fn summary(
    stats: AggregatedStats,
    elapsed: Seq<char>,
    throughput: Seq<char>,
    interrupted: bool,
) -> Seq<Seq<char>> {
    head_lines(stats, elapsed, throughput, interrupted) + part(
        "  Status distribution:"@,
        status_lines(stats.status_distribution@, keys_below(stats.status_distribution@, 0x10000)),
    ) + part("  Error categories:"@, error_lines(stats.error_categories.listed())) + seq![rule()]
}

/// Appends a line with a number behind a label.
fn push_number(lines: &mut Vec<String>, label: &str, n: u64)
    ensures
        text::texts(final(lines)@) == text::texts(old(lines)@).push(
            label@ + text::decimal(n as nat),
        ),
{
    let line = label.to_owned().concat(text::decimal_text(n).as_str());
    let ghost before = lines@;
    lines.push(line);
    assert(text::texts(lines@) =~= text::texts(before).push(label@ + text::decimal(n as nat)));
}

/// Appends a line.
fn push_line(lines: &mut Vec<String>, line: String)
    ensures
        text::texts(final(lines)@) == text::texts(old(lines)@).push(line@),
{
    let ghost before = lines@;
    lines.push(line);
    assert(text::texts(lines@) =~= text::texts(before).push(line@));
}

fn head(stats: &AggregatedStats, elapsed: &str, throughput: &str, interrupted: bool) -> (r: Vec<
    String,
>)
    ensures
        text::texts(r@) == head_lines(*stats, elapsed@, throughput@, interrupted),
{
    let mut lines: Vec<String> = Vec::new();
    assert(text::texts(lines@) =~= Seq::<Seq<char>>::empty());
    if interrupted {
        push_line(&mut lines, "\n[INTERRUPTED] Partial run summary:".to_owned());
    } else {
        push_line(&mut lines, "\nRun complete — Summary:".to_owned());
    }
    push_line(&mut lines, rule_text());
    push_number(&mut lines, "  Lines read:        ", stats.total_lines);
    push_number(&mut lines, "  Parse errors:      ", stats.parse_errors);
    push_number(&mut lines, "  Filtered:          ", stats.filtered_count);
    push_number(&mut lines, "  Attempted:         ", stats.attempted);
    push_number(&mut lines, "  Succeeded (2xx):   ", stats.succeeded);
    push_number(&mut lines, "  Failed:            ", stats.failed);
    push_line(&mut lines, "  Elapsed:           ".to_owned().concat(elapsed).concat("s"));
    push_line(&mut lines, "  Throughput:        ".to_owned().concat(throughput).concat(" req/s"));
    push_line(&mut lines, rule_text());
    push_line(&mut lines, "  Latency (µs):".to_owned());
    push_number(&mut lines, "    p50:  ", stats.p50_us);
    push_number(&mut lines, "    p95:  ", stats.p95_us);
    push_number(&mut lines, "    p99:  ", stats.p99_us);
    assert(text::texts(lines@) =~= head_lines(*stats, elapsed@, throughput@, interrupted));
    lines
}

fn statuses(stats: &AggregatedStats) -> (r: Vec<String>)
    ensures
        text::texts(r@) == status_lines(
            stats.status_distribution@,
            keys_below(stats.status_distribution@, 0x10000),
        ),
{
    let ghost counts = stats.status_distribution@;
    let mut lines: Vec<String> = Vec::new();
    assert(text::texts(lines@) =~= status_lines(counts, keys_below(counts, 0)));
    let mut s: u32 = 0;
    while s < 0x10000
        invariant
            s <= 0x10000,
            counts == stats.status_distribution@,
            text::texts(lines@) == status_lines(counts, keys_below(counts, s as nat)),
        decreases 0x10000 - s,
    {
        let status: u16 = s as u16;
        if let Some(count) = stats.status_distribution.get(&status) {
            let line = count_line_text(text::decimal_text(s as u64).as_str(), *count);
            push_line(&mut lines, line);
        }
        proof {
            let done = keys_below(counts, (s + 1) as nat);
            assert(text::texts(lines@) =~= status_lines(counts, done));
        }
        s += 1;
    }
    lines
}

fn errors(stats: &AggregatedStats) -> (r: Vec<String>)
    ensures
        text::texts(r@) == error_lines(stats.error_categories.listed()),
{
    let entries = stats.error_categories.entries();
    let mut lines: Vec<String> = Vec::new();
    let mut i: usize = 0;
    assert(text::texts(lines@) =~= error_lines(entries@.take(0)));
    while i < entries.len()
        invariant
            i <= entries@.len(),
            text::texts(lines@) == error_lines(entries@.take(i as int)),
        decreases entries@.len() - i,
    {
        let line = count_line_text(entries[i].0.as_str(), entries[i].1);
        push_line(&mut lines, line);
        i += 1;
        assert(text::texts(lines@) =~= error_lines(entries@.take(i as int)));
    }
    assert(entries@.take(i as int) =~= entries@);
    lines
}

/// Appends a part, if it has lines.
fn push_part(lines: &mut Vec<String>, title: &str, mut body: Vec<String>)
    ensures
        text::texts(final(lines)@) == text::texts(old(lines)@) + part(
            title@,
            text::texts(body@),
        ),
{
    if body.len() > 0 {
        let ghost before = text::texts(lines@);
        let ghost rest = text::texts(body@);
        push_line(lines, rule_text());
        push_line(lines, title.to_owned());
        let ghost headed = lines@;
        let ghost held = body@;
        lines.append(&mut body);
        assert(lines@ =~= headed + held);
        assert(text::texts(lines@) =~= text::texts(headed) + rest);
        assert(text::texts(lines@) =~= before + part(title@, rest));
    } else {
        assert(text::texts(lines@) + part(title@, text::texts(body@)) =~= text::texts(lines@));
    }
}

/// The summary, line by line. The elapsed seconds and the throughput come as they are to
/// be shown.
pub fn summary_lines(
    stats: &AggregatedStats,
    elapsed: &str,
    throughput: &str,
    interrupted: bool,
) -> (r: Vec<String>)
    ensures
        text::texts(r@) == summary(*stats, elapsed@, throughput@, interrupted),
        r@.len() > 15,
        interrupted ==> r@[0]@ == "\n[INTERRUPTED] Partial run summary:"@,
        !interrupted ==> r@[0]@ == "\nRun complete — Summary:"@,
        r@[2]@ == "  Lines read:        "@ + text::decimal(stats.total_lines as nat),
        r@[3]@ == "  Parse errors:      "@ + text::decimal(stats.parse_errors as nat),
        r@[4]@ == "  Filtered:          "@ + text::decimal(stats.filtered_count as nat),
        r@[5]@ == "  Attempted:         "@ + text::decimal(stats.attempted as nat),
        r@[6]@ == "  Succeeded (2xx):   "@ + text::decimal(stats.succeeded as nat),
        r@[7]@ == "  Failed:            "@ + text::decimal(stats.failed as nat),
        r@[8]@ == "  Elapsed:           "@ + elapsed@ + "s"@,
        r@[9]@ == "  Throughput:        "@ + throughput@ + " req/s"@,
        r@[11]@ == "  Latency (µs):"@,
        r@[12]@ == "    p50:  "@ + text::decimal(stats.p50_us as nat),
        r@[13]@ == "    p95:  "@ + text::decimal(stats.p95_us as nat),
        r@[14]@ == "    p99:  "@ + text::decimal(stats.p99_us as nat),
{
    let mut lines = head(stats, elapsed, throughput, interrupted);
    push_part(&mut lines, "  Status distribution:", statuses(stats));
    push_part(&mut lines, "  Error categories:", errors(stats));
    let ghost before = text::texts(lines@);
    push_line(&mut lines, rule_text());
    assert(text::texts(lines@) =~= before + seq![rule()]);
    proof {
        every_number_has_its_label(*stats, elapsed@, throughput@, interrupted);
        assert forall|i: int| 0 <= i < lines@.len() implies (#[trigger] lines@[i])@ == summary(
            *stats,
            elapsed@,
            throughput@,
            interrupted,
        )[i] by {
            assert(text::texts(lines@)[i] == lines@[i]@);
        }
    }
    lines
}

/// Each number of the statistics stands behind its label, in a line of its own.
pub proof fn every_number_has_its_label(
    stats: AggregatedStats,
    elapsed: Seq<char>,
    throughput: Seq<char>,
    interrupted: bool,
)
    ensures
        ({
            let lines = summary(stats, elapsed, throughput, interrupted);
            &&& lines.len() > 15
            &&& interrupted ==> lines[0] == "\n[INTERRUPTED] Partial run summary:"@
            &&& !interrupted ==> lines[0] == "\nRun complete — Summary:"@
            &&& lines[2] == "  Lines read:        "@ + text::decimal(stats.total_lines as nat)
            &&& lines[3] == "  Parse errors:      "@ + text::decimal(stats.parse_errors as nat)
            &&& lines[4] == "  Filtered:          "@ + text::decimal(stats.filtered_count as nat)
            &&& lines[5] == "  Attempted:         "@ + text::decimal(stats.attempted as nat)
            &&& lines[6] == "  Succeeded (2xx):   "@ + text::decimal(stats.succeeded as nat)
            &&& lines[7] == "  Failed:            "@ + text::decimal(stats.failed as nat)
            &&& lines[8] == "  Elapsed:           "@ + elapsed + "s"@
            &&& lines[9] == "  Throughput:        "@ + throughput + " req/s"@
            &&& lines[11] == "  Latency (µs):"@
            &&& lines[12] == "    p50:  "@ + text::decimal(stats.p50_us as nat)
            &&& lines[13] == "    p95:  "@ + text::decimal(stats.p95_us as nat)
            &&& lines[14] == "    p99:  "@ + text::decimal(stats.p99_us as nat)
        }),
{
}

/// The lines that separate the parts: behind the title, before the latencies, and at the
/// end.
pub proof fn rules_separate_the_parts(
    stats: AggregatedStats,
    elapsed: Seq<char>,
    throughput: Seq<char>,
    interrupted: bool,
)
    ensures
        ({
            let lines = summary(stats, elapsed, throughput, interrupted);
            &&& lines[1] == "─────────────────────────────────────────"@
            &&& lines[10] == "─────────────────────────────────────────"@
            &&& lines.last() == "─────────────────────────────────────────"@
        }),
{
}

/// There are as many keys below a bound as are counted below it.
proof fn keys_below_are_counted(counts: Map<u16, u64>, bound: nat)
    requires
        bound <= 0x10000,
    ensures
        counts.dom().filter(|s: u16| s < bound).finite(),
        keys_below(counts, bound).len() == counts.dom().filter(|s: u16| s < bound).len(),
    decreases bound,
{
    let below = counts.dom().filter(|s: u16| s < bound);
    if bound == 0 {
        assert(below =~= Set::<u16>::empty());
    } else {
        let last = (bound - 1) as u16;
        let fewer = counts.dom().filter(|s: u16| s < (bound - 1) as nat);
        keys_below_are_counted(counts, (bound - 1) as nat);
        if counts.contains_key(last) {
            assert(below =~= fewer.insert(last));
        } else {
            assert(below =~= fewer);
        }
    }
}

/// The keys below a lower bound come first.
proof fn lower_keys_come_first(counts: Map<u16, u64>, low: nat, bound: nat)
    requires
        low <= bound,
    ensures
        keys_below(counts, low).len() <= keys_below(counts, bound).len(),
        keys_below(counts, bound).take(keys_below(counts, low).len() as int) == keys_below(
            counts,
            low,
        ),
    decreases bound,
{
    let first = keys_below(counts, low);
    if low < bound {
        lower_keys_come_first(counts, low, (bound - 1) as nat);
        let before = keys_below(counts, (bound - 1) as nat);
        assert(keys_below(counts, bound).take(first.len() as int) =~= before.take(
            first.len() as int,
        ));
    } else {
        assert(first.take(first.len() as int) =~= first);
    }
}

/// Every status that was counted has its line below the title of the statuses, behind
/// those of the lower statuses: the status, and how often it came.
pub proof fn every_status_has_its_line(
    stats: AggregatedStats,
    elapsed: Seq<char>,
    throughput: Seq<char>,
    interrupted: bool,
    status: u16,
)
    requires
        stats.status_distribution@.contains_key(status),
    ensures
        ({
            let lines = summary(stats, elapsed, throughput, interrupted);
            &&& lines[15] == "─────────────────────────────────────────"@
            &&& lines[16] == "  Status distribution:"@
            &&& lines[17int + stats.status_distribution@.dom().filter(|s: u16| s < status).len()]
                == "    "@ + text::decimal(status as nat) + ": "@ + text::decimal(
                stats.status_distribution@[status] as nat,
            )
        }),
{
    let counts = stats.status_distribution@;
    let keys = keys_below(counts, 0x10000);
    let lines = summary(stats, elapsed, throughput, interrupted);
    let lower = keys_below(counts, status as nat);
    let upto = keys_below(counts, (status + 1) as nat);
    let k = lower.len() as int;
    keys_below_are_counted(counts, status as nat);
    assert(counts.dom().filter(|s: u16| s < status) =~= counts.dom().filter(
        |s: u16| s < status as nat,
    ));
    lower_keys_come_first(counts, (status + 1) as nat, 0x10000);
    assert(upto == lower.push(status));
    assert(keys[k] == keys.take(upto.len() as int)[k]);
    assert(status_lines(counts, keys)[k] == count_line(
        text::decimal(status as nat),
        counts[status],
    ));
    assert(lines[17 + k] == status_lines(counts, keys)[k]);
}

/// Every kind of errors that was counted has its line below the title of the errors: the
/// kind, and how often it came. They are the last lines but one.
pub proof fn every_error_category_has_its_line(
    stats: AggregatedStats,
    elapsed: Seq<char>,
    throughput: Seq<char>,
    interrupted: bool,
    k: int,
)
    requires
        0 <= k < stats.error_categories.listed().len(),
    ensures
        ({
            let lines = summary(stats, elapsed, throughput, interrupted);
            let listed = stats.error_categories.listed();
            let first = lines.len() - 1 - listed.len();
            &&& first >= 17
            &&& lines[first - 2] == "─────────────────────────────────────────"@
            &&& lines[first - 1] == "  Error categories:"@
            &&& lines[first + k] == "    "@ + listed[k].0@ + ": "@ + text::decimal(
                listed[k].1 as nat,
            )
        }),
{
    let listed = stats.error_categories.listed();
    assert(error_lines(listed)[k] == count_line(listed[k].0@, listed[k].1));
}

/// A summary has no other lines: besides those that it always has there is one for each
/// status and for each kind of errors, and two more for each of these parts that is not
/// empty.
pub proof fn empty_parts_are_left_out(
    stats: AggregatedStats,
    elapsed: Seq<char>,
    throughput: Seq<char>,
    interrupted: bool,
)
    ensures
        ({
            let statuses = stats.status_distribution@.dom().len();
            let errors = stats.error_categories.listed().len();
            summary(stats, elapsed, throughput, interrupted).len() == 16 + (if statuses > 0 {
                2 + statuses
            } else {
                0
            }) + (if errors > 0 {
                2 + errors
            } else {
                0
            })
        }),
{
    let counts = stats.status_distribution@;
    keys_below_are_counted(counts, 0x10000);
    assert(counts.dom().filter(|s: u16| s < 0x10000nat) =~= counts.dom());
}

/// The statuses of a summary are those that were counted, from the lowest to the
/// highest.
pub proof fn statuses_are_sorted(counts: Map<u16, u64>, bound: nat)
    requires
        bound <= 0x10000,
    ensures
        forall|i: int, j: int|
            0 <= i < j < keys_below(counts, bound).len() ==> #[trigger] keys_below(
                counts,
                bound,
            )[i] < #[trigger] keys_below(counts, bound)[j],
        forall|s: u16|
            s < bound ==> (counts.contains_key(s) <==> #[trigger] keys_below(
                counts,
                bound,
            ).contains(s)),
        forall|i: int| 0 <= i < keys_below(counts, bound).len() ==> #[trigger] keys_below(
            counts,
            bound,
        )[i] < bound,
    decreases bound,
{
    if bound > 0 {
        let last = (bound - 1) as u16;
        let before = keys_below(counts, (bound - 1) as nat);
        let after = keys_below(counts, bound);
        statuses_are_sorted(counts, (bound - 1) as nat);
        assert forall|s: u16| s < bound implies (counts.contains_key(s)
            <==> #[trigger] after.contains(s)) by {
            if counts.contains_key(s) {
                if s == last {
                    assert(after[before.len() as int] == s);
                } else {
                    assert(before.contains(s));
                    let k = choose|k: int| 0 <= k < before.len() && before[k] == s;
                    assert(after[k] == s);
                }
            }
            if after.contains(s) {
                let k = choose|k: int| 0 <= k < after.len() && after[k] == s;
                if k < before.len() {
                    assert(before[k] == s);
                    assert(before.contains(s));
                }
            }
        }
    }
}

} // verus!
