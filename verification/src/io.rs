//! Where records are kept and how they are named, ordered and selected.
//! Reading and writing the files themselves is left to the caller.

use vstd::prelude::*;
use vstd::string::StringExecFns;
use crate::clock::compact_stamp;
use crate::clock::write_compact_stamp;
use crate::result::BenchmarkResult;
use crate::text::chars_of;
use crate::text::same_text;

verus! {

/// Default output directory for benchmark results.
pub const DEFAULT_OUTPUT_DIR: &'static str = "benchmarks/output";

/// Directory of the raw records, one file per record.
pub const RAW_OUTPUT_DIR: &'static str = "benchmarks/output/raw";

/// Name of the summary file.
pub const SUMMARY_FILE: &'static str = "summary.md";

/// Name of the file that holds all records as one array.
pub const SUMMARY_JSON_FILE: &'static str = "summary.json";

/// The two directories that a run writes to.
#[derive(Clone, Debug)]
pub struct BenchmarkIO {
    output_dir: String,
    raw_dir: String,
}

/// A character as it stands in a file name: `/` and `:` become `_`.
pub open spec fn safe_char(c: char) -> char {
    if c == '/' || c == ':' {
        '_'
    } else {
        c
    }
}

/// An identifier as it stands in a file name.
pub open spec fn sanitized(id: Seq<char>) -> Seq<char> {
    Seq::new(id.len(), |i: int| safe_char(id[i]))
}

/// The name of the file of a record: the sanitized identifier, an
/// underscore, the compact timestamp and the ending `.json`.
pub open spec fn file_name_of(id: Seq<char>, stamp: Seq<char>) -> Seq<char> {
    sanitized(id) + "_"@ + stamp + ".json"@
}

/// Whether a file name has the ending of a record file after a name of at
/// least one character.
pub open spec fn names_record_file(name: Seq<char>) -> bool {
    name.len() > 5 && name.subrange(name.len() - 5, name.len() as int) == ".json"@
}

/// Replaces the characters of an identifier that may not stand in a file name.
pub fn sanitize_id(id: &str) -> (safe: String)
    ensures
        safe@ == sanitized(id@),
        safe@.len() == id@.len(),
        forall|i: int| 0 <= i < safe@.len() ==> safe@[i] != '/' && safe@[i] != ':',
{
    let chars: Vec<char> = chars_of(id);
    let mut safe = String::new();
    let mut i: usize = 0;
    while i < chars.len()
        invariant
            i <= chars@.len(),
            chars@ == id@,
            safe@ == sanitized(id@.take(i as int)),
        decreases chars@.len() - i,
    {
        let c: char = chars[i];
        if c == '/' || c == ':' {
            safe.push('_');
        } else {
            safe.push(c);
        }
        i = i + 1;
        assert(safe@ =~= sanitized(id@.take(i as int)));
    }
    assert(id@.take(i as int) =~= id@);
    safe
}

/// The name of the file of the record of `id` with the compact timestamp `stamp`.
pub fn file_name_for(id: &str, stamp: &str) -> (name: String)
    ensures
        name@ == file_name_of(id@, stamp@),
{
    let mut name: String = sanitize_id(id);
    name.append("_");
    name.append(stamp);
    name.append(".json");
    name
}

/// Whether `name` is the name of a record file.
pub fn is_result_file(name: &str) -> (r: bool)
    ensures
        r == names_record_file(name@),
{
    let chars: Vec<char> = chars_of(name);
    let n: usize = chars.len();
    proof {
        reveal_strlit(".json");
    }
    if n <= 5 {
        return false;
    }
    let r = chars[n - 5] == '.' && chars[n - 4] == 'j' && chars[n - 3] == 's' && chars[n - 2] == 'o'
        && chars[n - 1] == 'n';
    proof {
        let tail = name@.subrange(n - 5, n as int);
        if r {
            assert(tail =~= ".json"@);
        } else {
            assert(tail[0] == name@[n - 5]);
            assert(tail[1] == name@[n - 4]);
            assert(tail[2] == name@[n - 3]);
            assert(tail[3] == name@[n - 2]);
            assert(tail[4] == name@[n - 1]);
        }
    }
    r
}

impl BenchmarkIO {
    /// The output directory.
    pub closed spec fn output(&self) -> Seq<char> {
        self.output_dir@
    }

    /// The directory of the raw records.
    pub closed spec fn raw(&self) -> Seq<char> {
        self.raw_dir@
    }

    /// The default directories.
    pub fn new() -> (io: BenchmarkIO)
        ensures
            io.output() == DEFAULT_OUTPUT_DIR@,
            io.raw() == RAW_OUTPUT_DIR@,
    {
        BenchmarkIO::with_paths(DEFAULT_OUTPUT_DIR, RAW_OUTPUT_DIR)
    }

    /// The given directories.
    pub fn with_paths(output_dir: &str, raw_dir: &str) -> (io: BenchmarkIO)
        ensures
            io.output() == output_dir@,
            io.raw() == raw_dir@,
    {
        BenchmarkIO { output_dir: output_dir.to_owned(), raw_dir: raw_dir.to_owned() }
    }

    /// The output directory `dir` with its raw records under `dir/raw`.
    pub fn in_directory(dir: &str) -> (io: BenchmarkIO)
        ensures
            io.output() == dir@,
            io.raw() == dir@ + "/raw"@,
    {
        let mut raw: String = dir.to_owned();
        raw.append("/raw");
        BenchmarkIO { output_dir: dir.to_owned(), raw_dir: raw }
    }

    /// The output directory.
    pub fn output_dir(&self) -> (dir: &str)
        ensures
            dir@ == self.output(),
    {
        self.output_dir.as_str()
    }

    /// The directory of the raw records.
    pub fn raw_dir(&self) -> (dir: &str)
        ensures
            dir@ == self.raw(),
    {
        self.raw_dir.as_str()
    }

    /// The name of the file in the raw directory that holds `result`, or
    /// `None` where the timestamp is none that a date can be written for.
    pub fn result_file_name(&self, result: &BenchmarkResult) -> (name: Option<String>)
        ensures
            name.is_some() == compact_stamp(
                result.timestamp.secs as int,
                result.timestamp.nanos as int,
            ).is_some(),
            name.is_some() ==> name.unwrap()@ == file_name_of(
                result.target_id@,
                compact_stamp(
                    result.timestamp.secs as int,
                    result.timestamp.nanos as int,
                ).unwrap(),
            ),
    {
        match write_compact_stamp(result.timestamp.secs, result.timestamp.nanos) {
            Some(stamp) => Some(file_name_for(result.target_id.as_str(), stamp.as_str())),
            None => None,
        }
    }
}

impl Default for BenchmarkIO {
    fn default() -> (io: BenchmarkIO)
        ensures
            io.output() == DEFAULT_OUTPUT_DIR@,
            io.raw() == RAW_OUTPUT_DIR@,
    {
        BenchmarkIO::new()
    }
}

/// Records in ascending order of their timestamps.
pub open spec fn ordered_by_time(records: Seq<BenchmarkResult>) -> bool {
    forall|i: int, j: int|
        0 <= i < j < records.len() ==> records[i].timestamp.at_most(records[j].timestamp)
}

/// `sorted` with `record` put behind the last record that is not later.
pub open spec fn insert_by_time(sorted: Seq<BenchmarkResult>, record: BenchmarkResult) -> Seq<
    BenchmarkResult,
>
    decreases sorted.len(),
{
    if sorted.len() == 0 {
        seq![record]
    } else if sorted.last().timestamp.at_most(record.timestamp) {
        sorted.push(record)
    } else {
        insert_by_time(sorted.drop_last(), record).push(sorted.last())
    }
}

/// The records in ascending order of their timestamps; records with the same
/// timestamp keep the order in which they came.
pub open spec fn time_sorted(records: Seq<BenchmarkResult>) -> Seq<BenchmarkResult>
    decreases records.len(),
{
    if records.len() == 0 {
        records
    } else {
        insert_by_time(time_sorted(records.drop_last()), records.last())
    }
}

/// Putting a record into an ordered sequence keeps it ordered and adds
/// exactly that record.
pub proof fn lemma_insert_by_time(sorted: Seq<BenchmarkResult>, record: BenchmarkResult)
    requires
        ordered_by_time(sorted),
    ensures
        ordered_by_time(insert_by_time(sorted, record)),
        insert_by_time(sorted, record).len() == sorted.len() + 1,
        insert_by_time(sorted, record).to_multiset() == sorted.to_multiset().insert(record),
        forall|i: int|
            0 <= i < insert_by_time(sorted, record).len() ==> insert_by_time(sorted, record)[i]
                == record || sorted.contains(#[trigger] insert_by_time(sorted, record)[i]),
    decreases sorted.len(),
{
    broadcast use vstd::seq_lib::to_multiset_build;

    let out = insert_by_time(sorted, record);
    if sorted.len() == 0 {
        assert(out =~= Seq::<BenchmarkResult>::empty().push(record));
        assert(sorted =~= Seq::<BenchmarkResult>::empty());
    } else if sorted.last().timestamp.at_most(record.timestamp) {
        assert forall|i: int, j: int| 0 <= i < j < out.len() implies out[i].timestamp.at_most(
            out[j].timestamp,
        ) by {
            if j == out.len() - 1 && i < sorted.len() - 1 {
                assert(sorted[i].timestamp.at_most(sorted.last().timestamp));
            }
        }
        assert forall|i: int| 0 <= i < out.len() implies out[i] == record || sorted.contains(
            #[trigger] out[i],
        ) by {
            if i < sorted.len() {
                assert(sorted[i] == out[i]);
            }
        }
    } else {
        let rest = sorted.drop_last();
        let inner = insert_by_time(rest, record);
        assert(ordered_by_time(rest)) by {
            assert forall|i: int, j: int| 0 <= i < j < rest.len() implies rest[i].timestamp.at_most(
                rest[j].timestamp,
            ) by {
                assert(sorted[i].timestamp.at_most(sorted[j].timestamp));
            }
        }
        lemma_insert_by_time(rest, record);
        assert(sorted =~= rest.push(sorted.last()));
        assert(inner.to_multiset().insert(sorted.last()) =~= rest.to_multiset().insert(
            sorted.last(),
        ).insert(record));
        assert forall|i: int, j: int| 0 <= i < j < out.len() implies out[i].timestamp.at_most(
            out[j].timestamp,
        ) by {
            if j == out.len() - 1 {
                if inner[i] != record {
                    assert(rest.contains(inner[i]));
                    let k = choose|k: int| 0 <= k < rest.len() && rest[k] == inner[i];
                    assert(sorted[k].timestamp.at_most(sorted[sorted.len() - 1].timestamp));
                }
            } else {
                assert(inner[i].timestamp.at_most(inner[j].timestamp));
            }
        }
        assert forall|i: int| 0 <= i < out.len() implies out[i] == record || sorted.contains(
            #[trigger] out[i],
        ) by {
            if i < inner.len() {
                if inner[i] != record {
                    assert(rest.contains(inner[i]));
                    let k = choose|k: int| 0 <= k < rest.len() && rest[k] == inner[i];
                    assert(sorted[k] == out[i]);
                }
            } else {
                assert(sorted[sorted.len() - 1] == out[i]);
            }
        }
    }
}

/// Whatever the order in which records were written, what is read back is in
/// ascending order of the timestamps and holds exactly the same records.
pub proof fn lemma_time_sorted(records: Seq<BenchmarkResult>)
    ensures
        ordered_by_time(time_sorted(records)),
        time_sorted(records).len() == records.len(),
        time_sorted(records).to_multiset() == records.to_multiset(),
    decreases records.len(),
{
    broadcast use vstd::seq_lib::to_multiset_build;

    if records.len() == 0 {
    } else {
        lemma_time_sorted(records.drop_last());
        lemma_insert_by_time(time_sorted(records.drop_last()), records.last());
        assert(records =~= records.drop_last().push(records.last()));
    }
}

/// Putting a record in at the place behind which every record is later, and
/// before which the last record is not, is `insert_by_time`.
proof fn lemma_insert_position(sorted: Seq<BenchmarkResult>, record: BenchmarkResult, at: int)
    requires
        0 <= at <= sorted.len(),
        forall|k: int| at <= k < sorted.len() ==> record.timestamp.before(sorted[k].timestamp),
        at > 0 ==> sorted[at - 1].timestamp.at_most(record.timestamp),
    ensures
        insert_by_time(sorted, record) == sorted.insert(at, record),
    decreases sorted.len() - at,
{
    if sorted.len() == 0 {
        assert(sorted.insert(at, record) =~= seq![record]);
    } else if at == sorted.len() {
        assert(sorted.insert(at, record) =~= sorted.push(record));
    } else {
        let last = sorted.last();
        assert(record.timestamp.before(last.timestamp));
        assert(!last.timestamp.at_most(record.timestamp));
        let rest = sorted.drop_last();
        assert forall|k: int| at <= k < rest.len() implies record.timestamp.before(
            rest[k].timestamp,
        ) by {
            assert(rest[k] == sorted[k]);
        }
        lemma_insert_position(rest, record, at);
        assert(sorted.insert(at, record) =~= rest.insert(at, record).push(last));
    }
}

/// Puts records in ascending order of their timestamps; records with the
/// same timestamp keep their order.
pub fn sort_by_timestamp(results: Vec<BenchmarkResult>) -> (sorted: Vec<BenchmarkResult>)
    ensures
        sorted@ == time_sorted(results@),
        ordered_by_time(sorted@),
        sorted@.to_multiset() == results@.to_multiset(),
{
    let ghost all = results@;
    let mut rest: Vec<BenchmarkResult> = results;
    let mut out: Vec<BenchmarkResult> = Vec::new();
    let ghost mut done: int = 0;
    assert(all.take(0) =~= Seq::<BenchmarkResult>::empty());
    assert(rest@ =~= all.skip(0));
    while rest.len() > 0
        invariant
            0 <= done <= all.len(),
            rest@ == all.skip(done),
            out@ == time_sorted(all.take(done)),
        decreases rest.len(),
    {
        let record: BenchmarkResult = rest.remove(0);
        let mut j: usize = out.len();
        while j > 0 && record.timestamp.is_before(&out[j - 1].timestamp)
            invariant
                j <= out.len(),
                forall|k: int| j <= k < out.len() ==> record.timestamp.before(out@[k].timestamp),
            decreases j,
        {
            j = j - 1;
        }
        proof {
            assert(record == all[done]);
            assert(all.take(done + 1).drop_last() =~= all.take(done));
            assert(all.take(done + 1).last() == record);
            lemma_insert_position(out@, record, j as int);
            assert(rest@ =~= all.skip(done + 1));
            done = done + 1;
        }
        out.insert(j, record);
    }
    proof {
        assert(all.take(done) =~= all);
        lemma_time_sorted(all);
    }
    out
}

/// The records among what was read from the files, in their order: a file
/// that held no record stands as `None` and is passed over.
pub open spec fn readable(parsed: Seq<Option<BenchmarkResult>>) -> Seq<BenchmarkResult>
    decreases parsed.len(),
{
    if parsed.len() == 0 {
        Seq::empty()
    } else {
        match parsed.last() {
            Some(record) => readable(parsed.drop_last()).push(record),
            None => readable(parsed.drop_last()),
        }
    }
}

/// Puts together what was read from the files of the raw directory: files
/// that held no record are passed over, and the records come in ascending
/// order of their timestamps.
pub fn assemble_results(parsed: Vec<Option<BenchmarkResult>>) -> (results: Vec<BenchmarkResult>)
    ensures
        results@ == time_sorted(readable(parsed@)),
        ordered_by_time(results@),
        results@.to_multiset() == readable(parsed@).to_multiset(),
{
    let ghost all = parsed@;
    let mut rest: Vec<Option<BenchmarkResult>> = parsed;
    let mut records: Vec<BenchmarkResult> = Vec::new();
    let ghost mut done: int = 0;
    assert(all.take(0) =~= Seq::<Option<BenchmarkResult>>::empty());
    assert(rest@ =~= all.skip(0));
    while rest.len() > 0
        invariant
            0 <= done <= all.len(),
            rest@ == all.skip(done),
            records@ == readable(all.take(done)),
        decreases rest.len(),
    {
        let entry: Option<BenchmarkResult> = rest.remove(0);
        proof {
            assert(entry == all[done]);
            assert(all.take(done + 1).drop_last() =~= all.take(done));
            assert(all.take(done + 1).last() == entry);
            assert(rest@ =~= all.skip(done + 1));
            done = done + 1;
        }
        match entry {
            Some(record) => {
                records.push(record);
            },
            None => {},
        }
    }
    assert(all.take(done) =~= all);
    sort_by_timestamp(records)
}

/// Whether the records at two positions belong to the same target.
pub open spec fn same_target(records: Seq<BenchmarkResult>, a: int, b: int) -> bool {
    records[a].target_id@ == records[b].target_id@
}

/// Whether the record at `at` is the latest of its target among the first
/// `upto` records: no record of that target is later, and of those with the
/// same timestamp it is the first.
pub open spec fn latest_among(records: Seq<BenchmarkResult>, upto: int, at: int) -> bool {
    &&& 0 <= at < upto
    &&& forall|k: int|
        0 <= k < upto && #[trigger] same_target(records, k, at) ==> records[k].timestamp.before(
            records[at].timestamp,
        ) || (records[k].timestamp == records[at].timestamp && at <= k)
}

/// Whether the target of the record at `k` is the target of one of the chosen positions.
pub open spec fn represented(records: Seq<BenchmarkResult>, chosen: Seq<usize>, k: int) -> bool {
    exists|i: int| 0 <= i < chosen.len() && #[trigger] same_target(records, k, chosen[i] as int)
}

/// The positions of the latest record of every target: one position for
/// each identifier that occurs.
pub fn latest_per_target(results: &Vec<BenchmarkResult>) -> (latest: Vec<usize>)
    ensures
        forall|i: int|
            0 <= i < latest@.len() ==> latest_among(
                results@,
                results@.len() as int,
                #[trigger] latest@[i] as int,
            ),
        forall|i: int, j: int|
            0 <= i < j < latest@.len() ==> !same_target(
                results@,
                #[trigger] latest@[i] as int,
                #[trigger] latest@[j] as int,
            ),
        forall|k: int| 0 <= k < results@.len() ==> #[trigger] represented(results@, latest@, k),
{
    let mut latest: Vec<usize> = Vec::new();
    let mut m: usize = 0;
    while m < results.len()
        invariant
            m <= results@.len(),
            forall|i: int|
                0 <= i < latest@.len() ==> latest_among(
                    results@,
                    m as int,
                    #[trigger] latest@[i] as int,
                ),
            forall|i: int, j: int|
                0 <= i < j < latest@.len() ==> !same_target(
                    results@,
                    #[trigger] latest@[i] as int,
                    #[trigger] latest@[j] as int,
                ),
            forall|k: int| 0 <= k < m ==> #[trigger] represented(results@, latest@, k),
        decreases results@.len() - m,
    {
        let ghost before = latest@;
        let mut found: Option<usize> = None;
        let mut i: usize = 0;
        while i < latest.len()
            invariant_except_break
                found is None,
                forall|a: int|
                    0 <= a < i ==> !same_target(results@, m as int, #[trigger] latest@[a] as int),
            invariant
                i <= latest@.len(),
                latest@ == before,
                m < results@.len(),
                forall|a: int| 0 <= a < latest@.len() ==> (#[trigger] latest@[a]) < m,
            ensures
                match found {
                    Some(a) => a < latest@.len() && same_target(
                        results@,
                        m as int,
                        latest@[a as int] as int,
                    ),
                    None => forall|a: int|
                        0 <= a < latest@.len() ==> !same_target(
                            results@,
                            m as int,
                            #[trigger] latest@[a] as int,
                        ),
                },
                latest@ == before,
            decreases latest@.len() - i,
        {
            if same_text(results[latest[i]].target_id.as_str(), results[m].target_id.as_str()) {
                found = Some(i);
                break ;
            }
            i = i + 1;
        }
        match found {
            Some(a) => {
                let current: usize = latest[a];
                if results[current].timestamp.is_before(&results[m].timestamp) {
                    latest.set(a, m);
                    proof {
                        assert forall|x: int| 0 <= x < latest@.len() implies latest_among(
                            results@,
                            m + 1,
                            #[trigger] latest@[x] as int,
                        ) by {
                            if x == a {
                                assert forall|k: int|
                                    0 <= k < m + 1 && #[trigger] same_target(
                                        results@,
                                        k,
                                        m as int,
                                    ) implies results@[k].timestamp.before(results@[m as int].timestamp)
                                    || (results@[k].timestamp == results@[m as int].timestamp && m
                                    <= k) by {
                                    if k < m {
                                        assert(same_target(results@, k, current as int));
                                    }
                                }
                            } else {
                                assert(latest_among(results@, m as int, before[x] as int));
                                assert(!same_target(results@, m as int, before[x] as int)) by {
                                    if x < a {
                                        assert(!same_target(
                                            results@,
                                            before[x] as int,
                                            before[a as int] as int,
                                        ));
                                    } else {
                                        assert(!same_target(
                                            results@,
                                            before[a as int] as int,
                                            before[x] as int,
                                        ));
                                    }
                                }
                            }
                        }
                        assert forall|x: int, y: int| 0 <= x < y < latest@.len() implies !same_target(
                            results@,
                            #[trigger] latest@[x] as int,
                            #[trigger] latest@[y] as int,
                        ) by {
                            assert(!same_target(results@, before[x] as int, before[y] as int));
                        }
                        assert forall|k: int| 0 <= k < m + 1 implies #[trigger] represented(
                            results@,
                            latest@,
                            k,
                        ) by {
                            if k < m { assert(represented(results@, before, k)); }
                            if k == m {
                                assert(same_target(results@, k, latest@[a as int] as int));
                            } else {
                                let x = choose|x: int|
                                    0 <= x < before.len() && #[trigger] same_target(
                                        results@,
                                        k,
                                        before[x] as int,
                                    );
                                assert(same_target(results@, k, latest@[x] as int));
                            }
                        }
                    }
                } else {
                    proof {
                        assert(latest_among(results@, m as int, before[a as int] as int));
                        assert forall|x: int| 0 <= x < latest@.len() implies latest_among(
                            results@,
                            m + 1,
                            #[trigger] latest@[x] as int,
                        ) by {
                            assert(latest_among(results@, m as int, before[x] as int));
                            if x != a {
                                assert(!same_target(results@, m as int, before[x] as int)) by {
                                    if x < a {
                                        assert(!same_target(
                                            results@,
                                            before[x] as int,
                                            before[a as int] as int,
                                        ));
                                    } else {
                                        assert(!same_target(
                                            results@,
                                            before[a as int] as int,
                                            before[x] as int,
                                        ));
                                    }
                                }
                            }
                        }
                        assert forall|k: int| 0 <= k < m + 1 implies #[trigger] represented(
                            results@,
                            latest@,
                            k,
                        ) by {
                            if k < m { assert(represented(results@, before, k)); }
                            if k == m {
                                assert(same_target(results@, k, latest@[a as int] as int));
                            }
                        }
                    }
                }
            },
            None => {
                latest.push(m);
                proof {
                    assert forall|x: int| 0 <= x < latest@.len() implies latest_among(
                        results@,
                        m + 1,
                        #[trigger] latest@[x] as int,
                    ) by {
                        if x < before.len() {
                            assert(latest_among(results@, m as int, before[x] as int));
                            assert(!same_target(results@, m as int, before[x] as int));
                        } else {
                            assert forall|k: int|
                                0 <= k < m + 1 && #[trigger] same_target(
                                    results@,
                                    k,
                                    m as int,
                                ) implies results@[k].timestamp.before(results@[m as int].timestamp)
                                || (results@[k].timestamp == results@[m as int].timestamp && m
                                <= k) by {
                                if k < m {
                                    assert(represented(results@, before, k));
                                    let y = choose|y: int|
                                        0 <= y < before.len() && #[trigger] same_target(
                                            results@,
                                            k,
                                            before[y] as int,
                                        );
                                    assert(!same_target(results@, m as int, before[y] as int));
                                }
                            }
                        }
                    }
                    assert forall|x: int, y: int| 0 <= x < y < latest@.len() implies !same_target(
                        results@,
                        #[trigger] latest@[x] as int,
                        #[trigger] latest@[y] as int,
                    ) by {
                        if y < before.len() {
                            assert(!same_target(results@, before[x] as int, before[y] as int));
                        } else {
                            assert(!same_target(results@, m as int, before[x] as int));
                        }
                    }
                    assert forall|k: int| 0 <= k < m + 1 implies #[trigger] represented(
                            results@,
                            latest@,
                            k,
                        ) by {
                            if k < m { assert(represented(results@, before, k)); }
                        if k == m {
                            assert(same_target(results@, k, latest@[before.len() as int] as int));
                        } else {
                            let x = choose|x: int|
                                0 <= x < before.len() && #[trigger] same_target(
                                    results@,
                                    k,
                                    before[x] as int,
                                );
                            assert(same_target(results@, k, latest@[x] as int));
                        }
                    }
                }
            },
        }
        m = m + 1;
    }
    latest
}

} // verus!
