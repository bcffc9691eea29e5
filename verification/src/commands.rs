//! The benchmark commands: what a parsed command line asks for, and the
//! decisions that follow from it.

use vstd::prelude::*;
use vstd::string::StringExecFns;
use crate::adapters::all_targets;
use crate::adapters::catalog;
use crate::adapters::id_has_prefix;
use crate::adapters::targets_by_prefix;
use crate::adapters::views_of;
use crate::adapters::BenchTarget;
use crate::adapters::Target;
use crate::io::latest_among;
use crate::io::latest_per_target;
use crate::io::represented;
use crate::io::same_target;
use crate::io::BenchmarkIO;
use crate::io::DEFAULT_OUTPUT_DIR;
use crate::io::RAW_OUTPUT_DIR;
use crate::orchestrator::initial;
use crate::orchestrator::Batch;
use crate::orchestrator::ValidationError;
use crate::result::BenchmarkResult;
use crate::text::append_decimal;
use crate::text::append_left_aligned;
use crate::text::append_repeated;
use crate::text::decimal;
use crate::text::left_aligned;
use crate::text::repeated;

verus! {

/// Runs targets: one by identifier, several by prefix, or all.
#[derive(Clone, Debug)]
pub struct RunBenchmarkCommand {
    /// The one target to run.
    pub target: Option<String>,
    /// Run every target whose identifier begins with this.
    pub prefix: Option<String>,
    /// Whether the records are written to the output directory.
    pub save: bool,
    /// Output directory in place of the default.
    pub output_dir: Option<String>,
    /// Number of trials asked for.
    pub iterations: Option<usize>,
}

/// Lists the targets of the catalog.
#[derive(Clone, Debug)]
pub struct ListBenchmarksCommand {
    /// List only targets whose identifier begins with this.
    pub prefix: Option<String>,
}

/// Shows stored records.
#[derive(Clone, Debug)]
pub struct ResultsCommand {
    /// Directory of the records in place of the default.
    pub path: Option<String>,
    /// Show only the latest record of each target.
    pub latest: bool,
    /// Show every metric.
    pub detailed: bool,
}

/// One of the three benchmark commands.
#[derive(Clone, Debug)]
pub enum BenchmarkSubcommand {
    Run(RunBenchmarkCommand),
    List(ListBenchmarksCommand),
    Results(ResultsCommand),
}

/// The benchmark commands as they stand on the command line.
#[derive(Clone, Debug)]
pub struct BenchmarkCommands {
    pub command: BenchmarkSubcommand,
}

/// The directories that go with an optional output directory.
pub open spec fn directories_of(dir: Option<String>) -> (Seq<char>, Seq<char>) {
    match dir {
        Some(d) => (d@, d@ + "/raw"@),
        None => (DEFAULT_OUTPUT_DIR@, RAW_OUTPUT_DIR@),
    }
}

fn storage_for(dir: &Option<String>) -> (io: BenchmarkIO)
    ensures
        io.output() == directories_of(*dir).0,
        io.raw() == directories_of(*dir).1,
{
    match dir {
        Some(d) => BenchmarkIO::in_directory(d.as_str()),
        None => BenchmarkIO::new(),
    }
}

impl RunBenchmarkCommand {
    /// The batch that the command asks for: the one target where a target is
    /// named, else the targets under the prefix where one is given, else the
    /// whole catalog. A name or prefix that selects nothing is an error, and
    /// then nothing runs.
    pub fn plan(&self) -> (r: Result<Batch, ValidationError>)
        ensures
            match r {
                Ok(batch) => batch.wf() && batch@ == initial(batch.targets().len()) && match (
                    self.target,
                    self.prefix,
                ) {
                    (Some(id), _) => batch.targets().len() == 1 && batch.targets()[0].id == id@
                        && catalog().contains(batch.targets()[0]),
                    (None, Some(prefix)) => batch.targets() == catalog().filter(
                        id_has_prefix(prefix@),
                    ) && batch.targets().len() > 0,
                    (None, None) => batch.targets() == catalog(),
                },
                Err(e) => match (self.target, self.prefix) {
                    (Some(id), _) => e == ValidationError::UnknownTarget && forall|i: int|
                        0 <= i < catalog().len() ==> (#[trigger] catalog()[i]).id != id@,
                    (None, Some(prefix)) => e == ValidationError::NoMatch && catalog().filter(
                        id_has_prefix(prefix@),
                    ).len() == 0,
                    (None, None) => false,
                },
            },
    {
        match &self.target {
            Some(id) => Batch::by_id(id.as_str()),
            None => match &self.prefix {
                Some(prefix) => Batch::by_prefix(prefix.as_str()),
                None => Ok(Batch::all()),
            },
        }
    }

    /// What the name or prefix was that `plan` found nothing for.
    pub fn asked(&self) -> (text: &str)
        ensures
            text@ == match (self.target, self.prefix) {
                (Some(id), _) => id@,
                (None, Some(prefix)) => prefix@,
                (None, None) => Seq::<char>::empty(),
            },
    {
        match &self.target {
            Some(id) => id.as_str(),
            None => match &self.prefix {
                Some(prefix) => prefix.as_str(),
                None => {
                    proof {
                        reveal_strlit("");
                    }
                    assert(""@ =~= Seq::<char>::empty());
                    ""
                },
            },
        }
    }

    /// Where the records go: nowhere unless they are to be saved, else the
    /// directory given or the default one.
    pub fn storage(&self) -> (r: Option<BenchmarkIO>)
        ensures
            r.is_some() == self.save,
            r.is_some() ==> r.unwrap().output() == directories_of(self.output_dir).0 && r.unwrap().raw()
                == directories_of(self.output_dir).1,
    {
        if self.save {
            Some(storage_for(&self.output_dir))
        } else {
            None
        }
    }
}

/// The line that says where the records were saved.
pub fn saved_message(output_dir: &str) -> (line: String)
    ensures
        line@ == "\nResults saved to: "@ + output_dir@ + "/"@,
{
    let mut line = String::new();
    line.append("\nResults saved to: ");
    line.append(output_dir);
    line.append("/");
    assert(line@ =~= "\nResults saved to: "@ + output_dir@ + "/"@);
    line
}

/// The line that says how many targets were run.
pub fn completed_message(count: usize) -> (line: String)
    ensures
        line@ == "\nCompleted "@ + decimal(count as nat) + " benchmark(s)"@,
{
    let mut line = String::new();
    line.append("\nCompleted ");
    append_decimal(&mut line, count as u64);
    line.append(" benchmark(s)");
    assert(line@ =~= "\nCompleted "@ + decimal(count as nat) + " benchmark(s)"@);
    line
}

/// One row of the listing: the first column filled up to 35 characters, a
/// space, the second column and a line break.
pub open spec fn listing_row(first: Seq<char>, second: Seq<char>) -> Seq<char> {
    left_aligned(first, 35) + " "@ + second + "\n"@
}

/// The head of the listing: title, column names and a rule of 70 dashes.
pub open spec fn listing_head() -> Seq<char> {
    "Available Benchmarks:\n\n"@ + listing_row("ID"@, "Description"@) + repeated('-', 70) + "\n"@
}

/// The rows of the first `upto` targets.
pub open spec fn listing_rows(ids: Seq<Seq<char>>, descriptions: Seq<Seq<char>>, upto: int) -> Seq<
    char,
>
    decreases upto,
{
    if upto <= 0 {
        Seq::empty()
    } else {
        listing_rows(ids, descriptions, upto - 1) + listing_row(ids[upto - 1], descriptions[upto - 1])
    }
}

/// The whole listing: head, one row for each target, and the total.
pub open spec fn listing_text(ids: Seq<Seq<char>>, descriptions: Seq<Seq<char>>) -> Seq<char> {
    listing_head() + listing_rows(ids, descriptions, ids.len() as int) + "\nTotal: "@ + decimal(
        ids.len(),
    ) + " benchmark(s)\n"@
}

fn append_row(out: &mut String, first: &str, second: &str)
    ensures
        final(out)@ == old(out)@ + listing_row(first@, second@),
{
    append_left_aligned(out, first, 35);
    out.append(" ");
    out.append(second);
    out.append("\n");
    assert(out@ =~= old(out)@ + listing_row(first@, second@));
}

/// Writes the listing of identifiers with their descriptions as a table.
pub fn render_listing(ids: &Vec<String>, descriptions: &Vec<String>) -> (text: String)
    requires
        ids.len() == descriptions.len(),
    ensures
        text@ == listing_text(
            Seq::new(ids@.len(), |i: int| ids@[i]@),
            Seq::new(descriptions@.len(), |i: int| descriptions@[i]@),
        ),
{
    let ghost id_texts = Seq::new(ids@.len(), |i: int| ids@[i]@);
    let ghost description_texts = Seq::new(descriptions@.len(), |i: int| descriptions@[i]@);
    let mut text = String::new();
    text.append("Available Benchmarks:\n\n");
    append_row(&mut text, "ID", "Description");
    append_repeated(&mut text, '-', 70);
    text.append("\n");
    assert(text@ =~= listing_head());
    let mut i: usize = 0;
    while i < ids.len()
        invariant
            i <= ids@.len(),
            ids@.len() == descriptions@.len(),
            id_texts == Seq::new(ids@.len(), |i: int| ids@[i]@),
            description_texts == Seq::new(descriptions@.len(), |i: int| descriptions@[i]@),
            text@ == listing_head() + listing_rows(id_texts, description_texts, i as int),
        decreases ids@.len() - i,
    {
        append_row(&mut text, ids[i].as_str(), descriptions[i].as_str());
        i = i + 1;
        assert(text@ =~= listing_head() + listing_rows(id_texts, description_texts, i as int));
    }
    text.append("\nTotal: ");
    append_decimal(&mut text, ids.len() as u64);
    text.append(" benchmark(s)\n");
    assert(text@ =~= listing_text(id_texts, description_texts));
    text
}

impl ListBenchmarksCommand {
    /// The targets to list: those under the prefix where one is given, else
    /// all, in catalog order. Nothing under the prefix gives an empty list.
    pub fn select(&self) -> (targets: Vec<Target>)
        ensures
            views_of(targets@) == match self.prefix {
                Some(prefix) => catalog().filter(id_has_prefix(prefix@)),
                None => catalog(),
            },
    {
        match &self.prefix {
            Some(prefix) => targets_by_prefix(prefix.as_str()),
            None => all_targets(),
        }
    }

    /// The identifiers of the targets to list.
    pub fn ids(&self) -> (ids: Vec<String>)
        ensures
            ids@.len() == match self.prefix {
                Some(prefix) => catalog().filter(id_has_prefix(prefix@)).len(),
                None => catalog().len(),
            },
            forall|i: int|
                0 <= i < ids@.len() ==> (#[trigger] ids@[i])@ == (match self.prefix {
                    Some(prefix) => catalog().filter(id_has_prefix(prefix@)),
                    None => catalog(),
                })[i].id,
    {
        let targets = self.select();
        let mut ids: Vec<String> = Vec::new();
        let mut i: usize = 0;
        while i < targets.len()
            invariant
                i <= targets@.len(),
                ids@.len() == i,
                forall|k: int| 0 <= k < i ==> (#[trigger] ids@[k])@ == views_of(targets@)[k].id,
            decreases targets@.len() - i,
        {
            ids.push(targets[i].id().to_owned());
            i = i + 1;
        }
        ids
    }
}

impl ResultsCommand {
    /// Where the records are read from: the directory given or the default one.
    pub fn storage(&self) -> (io: BenchmarkIO)
        ensures
            io.output() == directories_of(self.path).0,
            io.raw() == directories_of(self.path).1,
    {
        storage_for(&self.path)
    }

    /// The positions of the records to show: every position in order, or
    /// with `latest` the position of the latest record of every target.
    pub fn select(&self, results: &Vec<BenchmarkResult>) -> (shown: Vec<usize>)
        ensures
            !self.latest ==> shown@.len() == results@.len() && forall|i: int|
                0 <= i < shown@.len() ==> shown@[i] == i,
            self.latest ==> (forall|i: int|
                0 <= i < shown@.len() ==> latest_among(
                    results@,
                    results@.len() as int,
                    #[trigger] shown@[i] as int,
                )) && (forall|i: int, j: int|
                0 <= i < j < shown@.len() ==> !same_target(
                    results@,
                    #[trigger] shown@[i] as int,
                    #[trigger] shown@[j] as int,
                )) && (forall|k: int|
                0 <= k < results@.len() ==> #[trigger] represented(results@, shown@, k)),
    {
        if self.latest {
            latest_per_target(results)
        } else {
            let mut shown: Vec<usize> = Vec::new();
            let mut i: usize = 0;
            while i < results.len()
                invariant
                    i <= results@.len(),
                    shown@.len() == i,
                    forall|k: int| 0 <= k < i ==> shown@[k] == k,
                decreases results@.len() - i,
            {
                shown.push(i);
                i = i + 1;
            }
            shown
        }
    }
}

/// The line that says that no record was found.
pub fn no_results_message() -> (line: &'static str)
    ensures
        line@ == "No benchmark results found."@,
{
    "No benchmark results found."
}

} // verus!
