//! Records as text for a reader: numbers in short form, and one block of
//! lines for every record.

use vstd::prelude::*;
use vstd::string::StringExecFns;
use crate::clock::display_stamp;
use crate::clock::write_display_stamp;
use crate::metrics::MetricValue;
use crate::metrics::MetricView;
use crate::result::BenchmarkResult;
use crate::text::append_decimal;
use crate::text::append_repeated;
use crate::text::append_zero_padded;
use crate::text::decimal;
use crate::text::repeated;
use crate::text::zero_padded;

verus! {

/// `value / unit` rounded to the nearest whole number, a tie to the even one.
pub open spec fn round_half_even(value: nat, unit: nat) -> nat {
    let q = value / unit;
    let r = value % unit;
    if 2 * r > unit || (2 * r == unit && q % 2 == 1) {
        q + 1
    } else {
        q
    }
}

/// The number `scaled / unit` written with `places` decimals, where `unit`
/// is ten to the power of `places`.
pub open spec fn fixed_text(scaled: nat, unit: nat, places: int) -> Seq<char> {
    decimal(scaled / unit) + "."@ + zero_padded(scaled % unit, places)
}

/// A number, given in millionths, in short form: from a million on in
/// millions with the letter `M`, from a thousand on in thousands with the
/// letter `K`, both with two decimals; between zero and one with four
/// decimals; else with two decimals.
pub open spec fn number_text(millionths: nat) -> Seq<char> {
    if millionths >= 1_000_000_000_000 {
        fixed_text(round_half_even(millionths, 10_000_000_000), 100, 2) + "M"@
    } else if millionths >= 1_000_000_000 {
        fixed_text(round_half_even(millionths, 10_000_000), 100, 2) + "K"@
    } else if 0 < millionths < 1_000_000 {
        fixed_text(round_half_even(millionths, 100), 10_000, 4)
    } else {
        fixed_text(round_half_even(millionths, 10_000), 100, 2)
    }
}

/// A value as it is shown: a number in short form, a text as it is, a
/// boolean as `true` or `false`.
pub open spec fn value_text(value: MetricView) -> Seq<char> {
    match value {
        MetricView::Count(n) => number_text((n * 1_000_000) as nat),
        MetricView::Real(m) => number_text(m as nat),
        MetricView::Text(s) => s,
        MetricView::Flag(b) => if b {
            "true"@
        } else {
            "false"@
        },
    }
}

fn rounded(value: u128, unit: u128) -> (r: u128)
    requires
        unit > 0,
        unit <= 10_000_000_000,
        value <= u64::MAX * 1_000_000,
    ensures
        r == round_half_even(value as nat, unit as nat),
        r <= value / unit + 1,
{
    let q: u128 = value / unit;
    let rest: u128 = value % unit;
    if 2 * rest > unit || (2 * rest == unit && q % 2 == 1) {
        q + 1
    } else {
        q
    }
}

fn append_fixed(out: &mut String, scaled: u64, unit: u64, places: usize)
    requires
        unit > 0,
    ensures
        final(out)@ == old(out)@ + fixed_text(scaled as nat, unit as nat, places as int),
{
    append_decimal(out, scaled / unit);
    out.append(".");
    append_zero_padded(out, scaled % unit, places);
    assert(out@ =~= old(out)@ + fixed_text(scaled as nat, unit as nat, places as int));
}

fn append_number(out: &mut String, millionths: u128)
    requires
        millionths <= u64::MAX * 1_000_000,
    ensures
        final(out)@ == old(out)@ + number_text(millionths as nat),
{
    if millionths >= 1_000_000_000_000 {
        let scaled: u128 = rounded(millionths, 10_000_000_000);
        append_fixed(out, scaled as u64, 100, 2);
        out.append("M");
        assert(out@ =~= old(out)@ + number_text(millionths as nat));
    } else if millionths >= 1_000_000_000 {
        let scaled: u128 = rounded(millionths, 10_000_000);
        append_fixed(out, scaled as u64, 100, 2);
        out.append("K");
        assert(out@ =~= old(out)@ + number_text(millionths as nat));
    } else if 0 < millionths && millionths < 1_000_000 {
        let scaled: u128 = rounded(millionths, 100);
        append_fixed(out, scaled as u64, 10_000, 4);
    } else {
        let scaled: u128 = rounded(millionths, 10_000);
        append_fixed(out, scaled as u64, 100, 2);
    }
}

fn append_value(out: &mut String, value: &MetricValue)
    ensures
        final(out)@ == old(out)@ + value_text(value@),
{
    match value {
        MetricValue::Count(n) => {
            assert(*n * 1_000_000 <= u64::MAX * 1_000_000) by (nonlinear_arith)
                requires
                    *n <= u64::MAX,
            ;
            append_number(out, *n as u128 * 1_000_000);
        },
        MetricValue::Real(d) => {
            append_number(out, d.millionths as u128);
        },
        MetricValue::Text(s) => {
            out.append(s.as_str());
        },
        MetricValue::Flag(b) => {
            if *b {
                out.append("true");
            } else {
                out.append("false");
            }
        },
    }
}

/// Writes a value as it is shown.
pub fn format_value(value: &MetricValue) -> (text: String)
    ensures
        text@ == value_text(value@),
{
    let mut text = String::new();
    append_value(&mut text, value);
    assert(text@ =~= value_text(value@));
    text
}

/// The lines of the first `upto` metrics: two spaces, the name, a colon, the value.
pub open spec fn metric_lines(
    names: Seq<Seq<char>>,
    metrics: Map<Seq<char>, MetricView>,
    upto: int,
) -> Seq<char>
    decreases upto,
{
    if upto <= 0 {
        Seq::empty()
    } else {
        metric_lines(names, metrics, upto - 1) + "  "@ + names[upto - 1] + ": "@ + value_text(
            metrics[names[upto - 1]],
        ) + "\n"@
    }
}

/// The block of a record: target, timestamp, every metric on a line of its
/// own in the order of the record, and a rule of 40 dashes.
pub open spec fn record_block(record: BenchmarkResult, stamp: Seq<char>) -> Seq<char> {
    "Target: "@ + record.target_id@ + "\nTimestamp: "@ + stamp + "\nMetrics:\n"@ + metric_lines(
        record.metrics.names(),
        record.metrics@,
        record.metrics.names().len() as int,
    ) + repeated('-', 40) + "\n"@
}

/// The head of the report between two rules of 60 equals signs.
pub open spec fn report_head() -> Seq<char> {
    "\n"@ + repeated('=', 60) + "\nBENCHMARK RESULTS\n"@ + repeated('=', 60) + "\n\n"@
}

/// The blocks of the first `upto` records, or `None` where one of them has
/// a timestamp that no date can be written for.
pub open spec fn record_blocks(records: Seq<BenchmarkResult>, upto: int) -> Option<Seq<char>>
    decreases upto,
{
    if upto <= 0 {
        Some(Seq::empty())
    } else {
        let record = records[upto - 1];
        match (
            record_blocks(records, upto - 1),
            display_stamp(record.timestamp.secs as int, record.timestamp.nanos as int),
        ) {
            (Some(before), Some(stamp)) => Some(before + record_block(record, stamp)),
            _ => None,
        }
    }
}

/// Writes the block of a record whose timestamp reads `stamp`.
pub fn render_record(record: &BenchmarkResult, stamp: &str) -> (text: String)
    ensures
        text@ == record_block(*record, stamp@),
{
    let mut text = String::new();
    text.append("Target: ");
    text.append(record.target_id.as_str());
    text.append("\nTimestamp: ");
    text.append(stamp);
    text.append("\nMetrics:\n");
    let ghost head = text@;
    let ghost names = record.metrics.names();
    let count: usize = record.metrics.len();
    let mut i: usize = 0;
    assert(text@ =~= head + metric_lines(names, record.metrics@, 0));
    while i < count
        invariant
            i <= count,
            count == names.len(),
            names == record.metrics.names(),
            text@ == head + metric_lines(names, record.metrics@, i as int),
        decreases count - i,
    {
        text.append("  ");
        text.append(record.metrics.name_at(i).as_str());
        text.append(": ");
        append_value(&mut text, record.metrics.value_at(i));
        text.append("\n");
        i = i + 1;
        assert(text@ =~= head + metric_lines(names, record.metrics@, i as int));
    }
    append_repeated(&mut text, '-', 40);
    text.append("\n");
    assert(text@ =~= record_block(*record, stamp@));
    text
}

/// Writes the report of all records: the head and one block for each
/// record, in their order. There is no report where a record has a
/// timestamp that no date can be written for.
pub fn render_results(results: &Vec<BenchmarkResult>) -> (text: Option<String>)
    ensures
        text.is_some() == record_blocks(results@, results@.len() as int).is_some(),
        text.is_some() ==> text.unwrap()@ == report_head() + record_blocks(
            results@,
            results@.len() as int,
        ).unwrap(),
{
    let mut text = String::new();
    text.append("\n");
    append_repeated(&mut text, '=', 60);
    text.append("\nBENCHMARK RESULTS\n");
    append_repeated(&mut text, '=', 60);
    text.append("\n\n");
    assert(text@ =~= report_head() + record_blocks(results@, 0).unwrap());
    let mut i: usize = 0;
    while i < results.len()
        invariant
            i <= results@.len(),
            record_blocks(results@, i as int).is_some(),
            text@ == report_head() + record_blocks(results@, i as int).unwrap(),
        decreases results@.len() - i,
    {
        let record = &results[i];
        match write_display_stamp(record.timestamp.secs, record.timestamp.nanos) {
            Some(stamp) => {
                let block = render_record(record, stamp.as_str());
                text.append(block.as_str());
                i = i + 1;
                assert(text@ =~= report_head() + record_blocks(results@, i as int).unwrap());
            },
            None => {
                proof {
                    lemma_blocks_stay_none(results@, i + 1, results@.len() as int);
                }
                return None;
            },
        }
    }
    Some(text)
}

/// Once the first records have no report, more records have none either.
proof fn lemma_blocks_stay_none(records: Seq<BenchmarkResult>, from: int, upto: int)
    requires
        0 < from <= upto,
        record_blocks(records, from) is None,
    ensures
        record_blocks(records, upto) is None,
    decreases upto - from,
{
    if from < upto {
        lemma_blocks_stay_none(records, from, upto - 1);
    }
}

/// What stands in a cell of the summary for the metric `name`: its value
/// as it is shown, or a dash where the record has none.
pub open spec fn cell_text(metrics: Map<Seq<char>, MetricView>, name: Seq<char>) -> Seq<char> {
    if metrics.contains_key(name) {
        value_text(metrics[name])
    } else {
        "-"@
    }
}

/// The row of a record in the summary: target, duration, operations per
/// second and bytes per second.
pub open spec fn summary_row(record: BenchmarkResult) -> Seq<char> {
    "| "@ + record.target_id@ + " | "@ + cell_text(record.metrics@, "duration_ms"@) + " | "@
        + cell_text(record.metrics@, "ops_per_second"@) + " | "@ + cell_text(
        record.metrics@,
        "bytes_per_second"@,
    ) + " |\n"@
}

/// The rows of the first `upto` records.
pub open spec fn summary_rows(records: Seq<BenchmarkResult>, upto: int) -> Seq<char>
    decreases upto,
{
    if upto <= 0 {
        Seq::empty()
    } else {
        summary_rows(records, upto - 1) + summary_row(records[upto - 1])
    }
}

/// The head of the summary: title and the head of the table.
pub open spec fn summary_head() -> Seq<char> {
    "# Benchmark Summary\n\n| Target | Duration (ms) | Ops/sec | Bytes/sec |\n|---|---|---|---|\n"@
}

fn append_cell(out: &mut String, record: &BenchmarkResult, name: &str)
    ensures
        final(out)@ == old(out)@ + cell_text(record.metrics@, name@),
{
    match record.metrics.get(name) {
        Some(value) => {
            append_value(out, value);
        },
        None => {
            out.append("-");
        },
    }
}

/// Writes the summary of all records as a table with one row for each
/// record, in their order.
pub fn generate_summary(results: &Vec<BenchmarkResult>) -> (text: String)
    ensures
        text@ == summary_head() + summary_rows(results@, results@.len() as int),
{
    let mut text = String::new();
    text.append(
        "# Benchmark Summary\n\n| Target | Duration (ms) | Ops/sec | Bytes/sec |\n|---|---|---|---|\n",
    );
    assert(text@ =~= summary_head() + summary_rows(results@, 0));
    let mut i: usize = 0;
    while i < results.len()
        invariant
            i <= results@.len(),
            text@ == summary_head() + summary_rows(results@, i as int),
        decreases results@.len() - i,
    {
        let record = &results[i];
        let ghost before = text@;
        text.append("| ");
        text.append(record.target_id.as_str());
        text.append(" | ");
        append_cell(&mut text, record, "duration_ms");
        text.append(" | ");
        append_cell(&mut text, record, "ops_per_second");
        text.append(" | ");
        append_cell(&mut text, record, "bytes_per_second");
        text.append(" |\n");
        assert(text@ =~= before + summary_row(*record));
        i = i + 1;
        assert(text@ =~= summary_head() + summary_rows(results@, i as int));
    }
    text
}

} // verus!
