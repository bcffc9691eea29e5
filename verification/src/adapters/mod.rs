//! The benchmark targets and their catalog.

use vstd::prelude::*;
use crate::adapters::anonymization::AnonymizationBenchmark;
use crate::adapters::encryption::EncryptionBenchmark;
use crate::adapters::hashing::HashingBenchmark;
use crate::adapters::storage::StorageBenchmark;
use crate::text::has_prefix;
use crate::text::same_text;

pub mod anonymization;
pub mod encryption;
pub mod hashing;
pub mod storage;

verus! {

/// Hash algorithm to benchmark.
#[derive(Clone, Copy, Debug, PartialEq, Eq, Structural)]
pub enum HashType {
    Blake3,
    Sha256,
    Checksum,
}

/// Which anonymization operation is measured.
#[derive(Clone, Copy, Debug, PartialEq, Eq, Structural)]
pub enum AnonymizationType {
    /// Detection and anonymization together.
    Full,
    /// Detection only.
    Detection,
    /// Anonymization of structured documents.
    Json,
}

/// Which storage operation is measured.
#[derive(Clone, Copy, Debug, PartialEq, Eq, Structural)]
pub enum StorageOperation {
    Write,
    Read,
    /// Computing the content address of a payload.
    ContentAddressing,
}

/// The family a target belongs to, with its variant.
pub enum TargetKind {
    Encryption,
    Hashing(HashType),
    Anonymization(AnonymizationType),
    Storage(StorageOperation),
}

/// What a target stands for: its identifier and its fixed configuration.
pub struct TargetView {
    pub id: Seq<char>,
    /// Payload size in bytes, or the number of records per trial.
    pub size: nat,
    /// Number of timed trials.
    pub iterations: nat,
    pub kind: TargetKind,
}

/// The bytes `0, 1, .., 255, 0, 1, ..` up to `size` of them.
pub open spec fn payload(size: nat) -> Seq<u8> {
    Seq::new(size, |i: int| (i % 256) as u8)
}

/// Builds the payload that a target of `size` bytes works on.
pub fn generate_payload(size: usize) -> (data: Vec<u8>)
    ensures
        data@ == payload(size as nat),
{
    let mut data: Vec<u8> = Vec::new();
    let mut i: usize = 0;
    while i < size
        invariant
            i <= size,
            data@ == payload(i as nat),
        decreases size - i,
    {
        data.push((i % 256) as u8);
        i = i + 1;
        assert(data@ =~= payload(i as nat));
    }
    data
}

/// The display name of a target of the given kind.
pub open spec fn name_of(kind: TargetKind) -> Seq<char> {
    match kind {
        TargetKind::Encryption => "AES-256-GCM Encryption"@,
        TargetKind::Hashing(HashType::Blake3) => "BLAKE3 Hashing"@,
        TargetKind::Hashing(HashType::Sha256) => "SHA-256 Hashing"@,
        TargetKind::Hashing(HashType::Checksum) => "Checksum Verification"@,
        TargetKind::Anonymization(AnonymizationType::Full) => "Full Anonymization Pipeline"@,
        TargetKind::Anonymization(AnonymizationType::Detection) => "PII Detection"@,
        TargetKind::Anonymization(AnonymizationType::Json) => "JSON Anonymization"@,
        TargetKind::Storage(StorageOperation::Write) => "Storage Write"@,
        TargetKind::Storage(StorageOperation::Read) => "Storage Read"@,
        TargetKind::Storage(StorageOperation::ContentAddressing) => "Content Addressing"@,
    }
}

/// What a target of the given kind measures, in a sentence.
pub open spec fn description_of(kind: TargetKind) -> Seq<char> {
    match kind {
        TargetKind::Encryption => "Measures AES-256-GCM encryption and decryption throughput"@,
        TargetKind::Hashing(HashType::Blake3) => "Measures BLAKE3 hashing throughput"@,
        TargetKind::Hashing(HashType::Sha256) => "Measures SHA-256 hashing throughput"@,
        TargetKind::Hashing(HashType::Checksum) => "Measures checksum computation and verification"@,
        TargetKind::Anonymization(AnonymizationType::Full) =>
            "Measures full PII detection and anonymization pipeline latency"@,
        TargetKind::Anonymization(AnonymizationType::Detection) =>
            "Measures PII detection throughput"@,
        TargetKind::Anonymization(AnonymizationType::Json) =>
            "Measures JSON document anonymization throughput"@,
        TargetKind::Storage(StorageOperation::Write) => "Measures storage write throughput"@,
        TargetKind::Storage(StorageOperation::Read) => "Measures storage read throughput"@,
        TargetKind::Storage(StorageOperation::ContentAddressing) =>
            "Measures content addressing (hash + store) throughput"@,
    }
}

/// What every benchmark target offers for listing: a stable identifier, a
/// display name and a description.
pub trait BenchTarget {
    /// What the target stands for.
    spec fn target(&self) -> TargetView;

    /// The unique, stable identifier.
    fn id(&self) -> (id: &str)
        ensures
            id@ == self.target().id,
    ;

    /// A name for display; the identifier unless the target has a name of its own.
    fn name(&self) -> (name: &str)
        default_ensures
            name@ == self.target().id,
    {
        self.id()
    }

    /// What the target measures, in a sentence; empty unless the target says more.
    fn description(&self) -> (text: &str)
        default_ensures
            text@ == Seq::<char>::empty(),
    {
        proof {
            reveal_strlit("");
        }
        assert(""@ =~= Seq::<char>::empty());
        ""
    }
}

impl BenchTarget for EncryptionBenchmark {
    open spec fn target(&self) -> TargetView {
        self@
    }

    fn id(&self) -> (id: &str) {
        EncryptionBenchmark::id(self)
    }

    fn name(&self) -> (name: &str)
        ensures
            name@ == name_of(self.target().kind),
    {
        EncryptionBenchmark::name(self)
    }

    fn description(&self) -> (text: &str)
        ensures
            text@ == description_of(self.target().kind),
    {
        EncryptionBenchmark::description(self)
    }
}

impl BenchTarget for HashingBenchmark {
    open spec fn target(&self) -> TargetView {
        self@
    }

    fn id(&self) -> (id: &str) {
        HashingBenchmark::id(self)
    }

    fn name(&self) -> (name: &str)
        ensures
            name@ == name_of(self.target().kind),
    {
        HashingBenchmark::name(self)
    }

    fn description(&self) -> (text: &str)
        ensures
            text@ == description_of(self.target().kind),
    {
        HashingBenchmark::description(self)
    }
}

impl BenchTarget for AnonymizationBenchmark {
    open spec fn target(&self) -> TargetView {
        self@
    }

    fn id(&self) -> (id: &str) {
        AnonymizationBenchmark::id(self)
    }

    fn name(&self) -> (name: &str)
        ensures
            name@ == name_of(self.target().kind),
    {
        AnonymizationBenchmark::name(self)
    }

    fn description(&self) -> (text: &str)
        ensures
            text@ == description_of(self.target().kind),
    {
        AnonymizationBenchmark::description(self)
    }
}

impl BenchTarget for StorageBenchmark {
    open spec fn target(&self) -> TargetView {
        self@
    }

    fn id(&self) -> (id: &str) {
        StorageBenchmark::id(self)
    }

    fn name(&self) -> (name: &str)
        ensures
            name@ == name_of(self.target().kind),
    {
        StorageBenchmark::name(self)
    }

    fn description(&self) -> (text: &str)
        ensures
            text@ == description_of(self.target().kind),
    {
        StorageBenchmark::description(self)
    }
}

/// One entry of the catalog: a target of one of the four families.
#[derive(Clone, Debug)]
pub enum Target {
    Encryption(EncryptionBenchmark),
    Hashing(HashingBenchmark),
    Anonymization(AnonymizationBenchmark),
    Storage(StorageBenchmark),
}

impl View for Target {
    type V = TargetView;

    open spec fn view(&self) -> TargetView {
        match self {
            Target::Encryption(t) => t@,
            Target::Hashing(t) => t@,
            Target::Anonymization(t) => t@,
            Target::Storage(t) => t@,
        }
    }
}

impl BenchTarget for Target {
    open spec fn target(&self) -> TargetView {
        self@
    }

    fn id(&self) -> (id: &str) {
        match self {
            Target::Encryption(t) => t.id(),
            Target::Hashing(t) => t.id(),
            Target::Anonymization(t) => t.id(),
            Target::Storage(t) => t.id(),
        }
    }

    fn name(&self) -> (name: &str)
        ensures
            name@ == name_of(self.target().kind),
    {
        match self {
            Target::Encryption(t) => t.name(),
            Target::Hashing(t) => t.name(),
            Target::Anonymization(t) => t.name(),
            Target::Storage(t) => t.name(),
        }
    }

    fn description(&self) -> (text: &str)
        ensures
            text@ == description_of(self.target().kind),
    {
        match self {
            Target::Encryption(t) => t.description(),
            Target::Hashing(t) => t.description(),
            Target::Anonymization(t) => t.description(),
            Target::Storage(t) => t.description(),
        }
    }
}

/// What a list of targets stands for, entry by entry.
pub open spec fn views_of(targets: Seq<Target>) -> Seq<TargetView> {
    Seq::new(targets.len(), |i: int| targets[i]@)
}

/// An entry of the catalog.
pub open spec fn entry(id: Seq<char>, size: nat, iterations: nat, kind: TargetKind) -> TargetView {
    TargetView { id, size, iterations, kind }
}

/// The catalog in its canonical order: three encryption targets, three
/// hashing targets, three anonymization targets and three storage targets.
pub open spec fn catalog() -> Seq<TargetView> {
    seq![
        entry("encryption-1kb"@, 1024, 100, TargetKind::Encryption),
        entry("encryption-1mb"@, 1048576, 100, TargetKind::Encryption),
        entry("encryption-10mb"@, 10485760, 100, TargetKind::Encryption),
        entry("hashing-blake3-1mb"@, 1048576, 1000, TargetKind::Hashing(HashType::Blake3)),
        entry("hashing-sha256-1mb"@, 1048576, 1000, TargetKind::Hashing(HashType::Sha256)),
        entry("checksum-verification-1mb"@, 1048576, 1000, TargetKind::Hashing(HashType::Checksum)),
        entry(
            "anonymization-100-records"@,
            100,
            10,
            TargetKind::Anonymization(AnonymizationType::Full),
        ),
        entry(
            "anonymization-1000-records"@,
            1000,
            10,
            TargetKind::Anonymization(AnonymizationType::Full),
        ),
        entry(
            "pii-detection-1000-records"@,
            1000,
            10,
            TargetKind::Anonymization(AnonymizationType::Detection),
        ),
        entry("storage-write-1mb"@, 1048576, 100, TargetKind::Storage(StorageOperation::Write)),
        entry("storage-read-1mb"@, 1048576, 100, TargetKind::Storage(StorageOperation::Read)),
        entry(
            "content-addressing-1mb"@,
            1048576,
            100,
            TargetKind::Storage(StorageOperation::ContentAddressing),
        ),
    ]
}

/// The identifiers of the catalog, in its order.
pub open spec fn catalog_ids() -> Seq<Seq<char>> {
    Seq::new(catalog().len(), |i: int| catalog()[i].id)
}

/// Whether an entry's identifier begins with `prefix`.
pub open spec fn id_has_prefix(prefix: Seq<char>) -> spec_fn(TargetView) -> bool {
    |t: TargetView| prefix.is_prefix_of(t.id)
}

/// No two entries of the catalog share an identifier, and no identifier is empty.
pub proof fn lemma_catalog_ids_distinct()
    ensures
        catalog().len() == 12,
        forall|i: int, j: int| 0 <= i < j < catalog().len() ==> catalog()[i].id != catalog()[j].id,
        forall|i: int| 0 <= i < catalog().len() ==> (#[trigger] catalog()[i]).id.len() > 0,
{
    reveal_strlit("encryption-1kb");
    reveal_strlit("encryption-1mb");
    reveal_strlit("encryption-10mb");
    reveal_strlit("hashing-blake3-1mb");
    reveal_strlit("hashing-sha256-1mb");
    reveal_strlit("checksum-verification-1mb");
    reveal_strlit("anonymization-100-records");
    reveal_strlit("anonymization-1000-records");
    reveal_strlit("pii-detection-1000-records");
    reveal_strlit("storage-write-1mb");
    reveal_strlit("storage-read-1mb");
    reveal_strlit("content-addressing-1mb");
    let c = catalog();
    assert(c[0].id[12] != c[1].id[12]);
    assert(c[3].id[8] != c[4].id[8]);
    assert(c[5].id[0] != c[6].id[0]);
    assert(c[7].id[0] != c[8].id[0]);
    assert forall|i: int, j: int| 0 <= i < j < c.len() implies c[i].id != c[j].id by {
        if c[i].id.len() == c[j].id.len() {
            assert((i == 0 && j == 1) || (i == 3 && j == 4) || (i == 5 && j == 6) || (i == 7 && j
                == 8));
        }
    }
}

/// Builds the full catalog, every target afresh, in the canonical order. No
/// two of its targets share an identifier.
pub fn all_targets() -> (targets: Vec<Target>)
    ensures
        views_of(targets@) == catalog(),
        forall|i: int, j: int|
            0 <= i < j < targets@.len() ==> (#[trigger] targets@[i])@.id != (
            #[trigger] targets@[j])@.id,
{
    let mut targets: Vec<Target> = Vec::new();
    targets.push(Target::Encryption(EncryptionBenchmark::new(1024, "encryption-1kb")));
    targets.push(Target::Encryption(EncryptionBenchmark::new(1024 * 1024, "encryption-1mb")));
    targets.push(Target::Encryption(EncryptionBenchmark::new(10 * 1024 * 1024, "encryption-10mb")));
    targets.push(Target::Hashing(HashingBenchmark::blake3(1024 * 1024, "hashing-blake3-1mb")));
    targets.push(Target::Hashing(HashingBenchmark::sha256(1024 * 1024, "hashing-sha256-1mb")));
    targets.push(
        Target::Hashing(HashingBenchmark::checksum(1024 * 1024, "checksum-verification-1mb")),
    );
    targets.push(
        Target::Anonymization(AnonymizationBenchmark::new(100, "anonymization-100-records")),
    );
    targets.push(
        Target::Anonymization(AnonymizationBenchmark::new(1000, "anonymization-1000-records")),
    );
    targets.push(
        Target::Anonymization(
            AnonymizationBenchmark::pii_detection(1000, "pii-detection-1000-records"),
        ),
    );
    targets.push(Target::Storage(StorageBenchmark::write(1024 * 1024, "storage-write-1mb")));
    targets.push(Target::Storage(StorageBenchmark::read(1024 * 1024, "storage-read-1mb")));
    targets.push(
        Target::Storage(StorageBenchmark::content_addressing(1024 * 1024, "content-addressing-1mb")),
    );
    assert(views_of(targets@) =~= catalog());
    proof {
        lemma_catalog_ids_distinct();
        assert forall|i: int, j: int| 0 <= i < j < targets@.len() implies (
        #[trigger] targets@[i])@.id != (#[trigger] targets@[j])@.id by {
            assert(views_of(targets@)[i] == catalog()[i]);
            assert(views_of(targets@)[j] == catalog()[j]);
        }
    }
    targets
}

/// Keeps the targets whose identifier begins with `prefix`, in their order.
pub fn select_by_prefix(targets: Vec<Target>, prefix: &str) -> (selected: Vec<Target>)
    ensures
        views_of(selected@) == views_of(targets@).filter(id_has_prefix(prefix@)),
        forall|i: int| 0 <= i < selected@.len() ==> prefix@.is_prefix_of((#[trigger] selected@[i])@.id),
{
    let ghost all = views_of(targets@);
    let ghost keep = id_has_prefix(prefix@);
    let mut rest: Vec<Target> = targets;
    let mut selected: Vec<Target> = Vec::new();
    let ghost mut done: int = 0;
    proof {
        reveal(Seq::filter);
        assert(all.take(0) =~= Seq::<TargetView>::empty());
        assert(views_of(selected@) =~= all.take(0).filter(keep));
        assert(views_of(rest@) =~= all.skip(0));
    }
    while rest.len() > 0
        invariant
            0 <= done <= all.len(),
            rest@.len() == all.len() - done,
            keep == id_has_prefix(prefix@),
            views_of(rest@) == all.skip(done),
            views_of(selected@) == all.take(done).filter(keep),
            forall|i: int| 0 <= i < selected@.len() ==> prefix@.is_prefix_of((#[trigger] selected@[i])@.id),
        decreases rest.len(),
    {
        let ghost before_rest = rest@;
        let ghost before_selected = selected@;
        let t: Target = rest.remove(0);
        proof {
            assert(views_of(before_rest)[0] == all.skip(done)[0]);
            assert(t@ == all[done]);
            assert(all.take(done + 1) =~= all.take(done).push(all[done]));
            all.take(done).lemma_filter_push(all[done], keep);
            assert(views_of(rest@) =~= all.skip(done + 1)) by {
                assert forall|i: int| 0 <= i < rest@.len() implies views_of(rest@)[i] == all.skip(
                    done + 1,
                )[i] by {
                    assert(views_of(before_rest)[i + 1] == all.skip(done)[i + 1]);
                }
            }
        }
        if has_prefix(t.id(), prefix) {
            selected.push(t);
            assert(views_of(selected@) =~= views_of(before_selected).push(all[done]));
        }
        proof {
            done = done + 1;
        }
    }
    assert(all.take(done) =~= all);
    selected
}

/// The targets of the catalog whose identifier begins with `prefix`, in catalog order.
pub fn targets_by_prefix(prefix: &str) -> (targets: Vec<Target>)
    ensures
        views_of(targets@) == catalog().filter(id_has_prefix(prefix@)),
        forall|i: int| 0 <= i < targets@.len() ==> prefix@.is_prefix_of((#[trigger] targets@[i])@.id),
{
    select_by_prefix(all_targets(), prefix)
}

/// The first target among `targets` with the identifier `id`.
pub fn find_by_id(targets: Vec<Target>, id: &str) -> (found: Option<Target>)
    ensures
        match found {
            Some(t) => exists|i: int|
                0 <= i < targets@.len() && targets@[i]@ == t@ && t@.id == id@ && forall|k: int|
                    0 <= k < i ==> (#[trigger] targets@[k])@.id != id@,
            None => forall|k: int| 0 <= k < targets@.len() ==> (#[trigger] targets@[k])@.id != id@,
        },
{
    let ghost all = targets@;
    let mut rest: Vec<Target> = targets;
    let ghost mut done: int = 0;
    while rest.len() > 0
        invariant
            0 <= done <= all.len(),
            all == targets@,
            rest@.len() == all.len() - done,
            forall|i: int| 0 <= i < rest@.len() ==> (#[trigger] rest@[i])@ == all[done + i]@,
            forall|k: int| 0 <= k < done ==> (#[trigger] all[k])@.id != id@,
        decreases rest.len(),
    {
        let ghost before = rest@;
        let t: Target = rest.remove(0);
        assert(t@ == before[0]@);
        if same_text(t.id(), id) {
            assert(0 <= done < targets@.len() && targets@[done]@ == t@ && t@.id == id@ && forall|
                k: int,
            | 0 <= k < done ==> (#[trigger] targets@[k])@.id != id@);
            return Some(t);
        }
        proof {
            assert forall|i: int| 0 <= i < rest@.len() implies (#[trigger] rest@[i])@ == all[done
                + 1 + i]@ by {
                assert(rest@[i] == before[i + 1]);
            }
            done = done + 1;
        }
    }
    None
}

/// The target of the catalog with the identifier `id`, if there is one.
pub fn target_by_id(id: &str) -> (found: Option<Target>)
    ensures
        match found {
            Some(t) => exists|i: int| 0 <= i < catalog().len() && catalog()[i] == t@ && t@.id == id@,
            None => forall|i: int| 0 <= i < catalog().len() ==> (#[trigger] catalog()[i]).id != id@,
        },
{
    let all = all_targets();
    let found = find_by_id(all, id);
    proof {
        assert forall|k: int| 0 <= k < all@.len() implies (#[trigger] all@[k])@ == catalog()[k] by {
            assert(views_of(all@)[k] == catalog()[k]);
        }
        if found is Some {
            let t = found->0;
            let i = choose|i: int|
                0 <= i < all@.len() && all@[i]@ == t@ && t@.id == id@ && forall|k: int|
                    0 <= k < i ==> (#[trigger] all@[k])@.id != id@;
            assert(catalog()[i] == t@);
        } else {
            assert forall|i: int| 0 <= i < catalog().len() implies (#[trigger] catalog()[i]).id
                != id@ by {
                assert(all@[i]@.id != id@);
            }
        }
    }
    found
}

/// The identifiers of all targets, in catalog order.
pub fn list_benchmark_ids() -> (ids: Vec<&'static str>)
    ensures
        ids@.len() == catalog_ids().len(),
        forall|i: int| 0 <= i < ids@.len() ==> (#[trigger] ids@[i])@ == catalog_ids()[i],
{
    let mut ids: Vec<&'static str> = Vec::new();
    ids.push("encryption-1kb");
    ids.push("encryption-1mb");
    ids.push("encryption-10mb");
    ids.push("hashing-blake3-1mb");
    ids.push("hashing-sha256-1mb");
    ids.push("checksum-verification-1mb");
    ids.push("anonymization-100-records");
    ids.push("anonymization-1000-records");
    ids.push("pii-detection-1000-records");
    ids.push("storage-write-1mb");
    ids.push("storage-read-1mb");
    ids.push("content-addressing-1mb");
    ids
}

/// Whatever the prefix, every selected entry's identifier begins with it,
/// every selected entry is an entry of the catalog, and nothing is selected
/// exactly when no identifier of the catalog begins with the prefix.
pub proof fn lemma_prefix_selection(prefix: Seq<char>)
    ensures
        forall|i: int|
            0 <= i < catalog().filter(id_has_prefix(prefix)).len() ==> prefix.is_prefix_of(
                (#[trigger] catalog().filter(id_has_prefix(prefix))[i]).id,
            ) && catalog().contains(catalog().filter(id_has_prefix(prefix))[i]),
        catalog().filter(id_has_prefix(prefix)).len() == 0 <==> forall|k: int|
            0 <= k < catalog().len() ==> !prefix.is_prefix_of((#[trigger] catalog()[k]).id),
{
    let keep = id_has_prefix(prefix);
    let chosen = catalog().filter(keep);
    assert forall|i: int| 0 <= i < chosen.len() implies prefix.is_prefix_of(
        (#[trigger] chosen[i]).id,
    ) && catalog().contains(chosen[i]) by {
        catalog().lemma_filter_pred(keep, i);
        assert(chosen.contains(chosen[i]));
        catalog().lemma_filter_contains_rev(keep, chosen[i]);
    }
    if chosen.len() == 0 {
        assert forall|k: int| 0 <= k < catalog().len() implies !prefix.is_prefix_of(
            (#[trigger] catalog()[k]).id,
        ) by {
            if keep(catalog()[k]) {
                catalog().lemma_filter_contains(keep, k);
            }
        }
    } else {
        catalog().lemma_filter_pred(keep, 0);
        assert(chosen.contains(chosen[0]));
        catalog().lemma_filter_contains_rev(keep, chosen[0]);
    }
}

} // verus!
