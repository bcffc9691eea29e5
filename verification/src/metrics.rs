//! The measurement record: well-known fields in agreed units plus an open
//! map of target-specific values.

use vstd::prelude::*;
use crate::text::same_text;

verus! {

/// A non-negative decimal number with six fractional digits, held as a count
/// of millionths. A duration in milliseconds held this way counts nanoseconds.
#[derive(Clone, Copy, Debug, PartialEq, Eq, Structural)]
pub struct Decimal {
    pub millionths: u64,
}

impl Decimal {
    /// The number `millionths / 1_000_000`.
    pub fn from_millionths(millionths: u64) -> (r: Decimal)
        ensures
            r.millionths == millionths,
    {
        Decimal { millionths }
    }

    /// The whole number `units`, where it fits.
    pub fn from_units(units: u64) -> (r: Option<Decimal>)
        ensures
            r.is_some() <==> units * 1_000_000 <= u64::MAX,
            r.is_some() ==> r.unwrap().millionths == units * 1_000_000,
    {
        match units.checked_mul(1_000_000) {
            Some(m) => Some(Decimal { millionths: m }),
            None => None,
        }
    }
}

/// One value of the record: a boolean, a count, a decimal number or a text.
#[derive(Clone, Debug, PartialEq, Eq)]
pub enum MetricValue {
    Flag(bool),
    Count(u64),
    Real(Decimal),
    Text(String),
}

/// What a `MetricValue` stands for.
pub enum MetricView {
    Flag(bool),
    Count(u64),
    Real(u64),
    Text(Seq<char>),
}

impl View for MetricValue {
    type V = MetricView;

    open spec fn view(&self) -> MetricView {
        match self {
            MetricValue::Flag(b) => MetricView::Flag(*b),
            MetricValue::Count(n) => MetricView::Count(*n),
            MetricValue::Real(d) => MetricView::Real(d.millionths),
            MetricValue::Text(s) => MetricView::Text(s@),
        }
    }
}

impl MetricValue {
    /// A text value.
    pub fn text(s: &str) -> (r: MetricValue)
        ensures
            r@ == MetricView::Text(s@),
    {
        MetricValue::Text(s.to_owned())
    }

    /// A copy that stands for the same value.
    pub fn duplicate(&self) -> (r: MetricValue)
        ensures
            r@ == self@,
    {
        match self {
            MetricValue::Flag(b) => MetricValue::Flag(*b),
            MetricValue::Count(n) => MetricValue::Count(*n),
            MetricValue::Real(d) => MetricValue::Real(*d),
            MetricValue::Text(s) => MetricValue::Text(s.clone()),
        }
    }

    /// Whether two values stand for the same thing.
    pub fn same(&self, other: &MetricValue) -> (r: bool)
        ensures
            r == (self@ == other@),
    {
        match (self, other) {
            (MetricValue::Flag(a), MetricValue::Flag(b)) => *a == *b,
            (MetricValue::Count(a), MetricValue::Count(b)) => *a == *b,
            (MetricValue::Real(a), MetricValue::Real(b)) => a.millionths == b.millionths,
            (MetricValue::Text(a), MetricValue::Text(b)) => *a == *b,
            _ => false,
        }
    }
}

/// The map that a list of entries stands for; a later entry replaces an
/// earlier one under the same key.
pub open spec fn map_of(entries: Seq<(String, MetricValue)>) -> Map<Seq<char>, MetricView>
    decreases entries.len(),
{
    if entries.len() == 0 {
        Map::empty()
    } else {
        map_of(entries.drop_last()).insert(entries.last().0@, entries.last().1@)
    }
}

/// No two entries share a key.
pub open spec fn distinct_keys(entries: Seq<(String, MetricValue)>) -> bool {
    forall|i: int, j: int| 0 <= i < j < entries.len() ==> entries[i].0@ != entries[j].0@
}

/// The keys of `map_of` are the keys of the entries, and under distinct keys
/// every entry is found under its key.
pub proof fn lemma_map_of(entries: Seq<(String, MetricValue)>)
    ensures
        forall|k: Seq<char>|
            map_of(entries).contains_key(k) <==> exists|i: int|
                0 <= i < entries.len() && #[trigger] entries[i].0@ == k,
        distinct_keys(entries) ==> forall|i: int|
            0 <= i < entries.len() ==> map_of(entries)[#[trigger] entries[i].0@] == entries[i].1@,
        map_of(entries).dom().finite(),
    decreases entries.len(),
{
    if entries.len() > 0 {
        let rest = entries.drop_last();
        lemma_map_of(rest);
        assert forall|k: Seq<char>| map_of(entries).contains_key(k) implies exists|i: int|
            0 <= i < entries.len() && #[trigger] entries[i].0@ == k by {
            if k == entries.last().0@ {
                assert(entries[entries.len() - 1].0@ == k);
            } else {
                let i = choose|i: int| 0 <= i < rest.len() && #[trigger] rest[i].0@ == k;
                assert(entries[i].0@ == k);
            }
        }
        assert forall|k: Seq<char>|
            (exists|i: int|
                0 <= i < entries.len() && #[trigger] entries[i].0@ == k) implies map_of(
            entries,
        ).contains_key(k) by {
            let i = choose|i: int| 0 <= i < entries.len() && #[trigger] entries[i].0@ == k;
            if i < rest.len() {
                assert(rest[i].0@ == k);
            }
        }
        if distinct_keys(entries) {
            assert(distinct_keys(rest)) by {
                assert forall|i: int, j: int| 0 <= i < j < rest.len() implies rest[i].0@
                    != rest[j].0@ by {
                    assert(entries[i].0@ != entries[j].0@);
                }
            }
            assert forall|i: int| 0 <= i < entries.len() implies map_of(
                entries,
            )[#[trigger] entries[i].0@] == entries[i].1@ by {
                if i < rest.len() {
                    assert(entries[i].0@ != entries[entries.len() - 1].0@);
                    assert(rest[i].0@ == entries[i].0@);
                }
            }
        }
    }
}

/// A finite map from names to values, kept in insertion order.
#[derive(Debug)]
pub struct MetricMap {
    entries: Vec<(String, MetricValue)>,
}

impl View for MetricMap {
    type V = Map<Seq<char>, MetricView>;

    closed spec fn view(&self) -> Map<Seq<char>, MetricView> {
        map_of(self.entries@)
    }
}

impl MetricMap {
    /// Every name occurs once. This holds of every map there is.
    #[verifier::type_invariant]
    pub closed spec fn wf(&self) -> bool {
        distinct_keys(self.entries@)
    }

    /// The names in insertion order.
    pub closed spec fn names(&self) -> Seq<Seq<char>> {
        Seq::new(self.entries@.len(), |i: int| self.entries@[i].0@)
    }

    /// The names are distinct, they are the keys of the map, and there are
    /// as many of them as the map has entries.
    pub proof fn lemma_names(&self)
        requires
            self.wf(),
        ensures
            self.names().no_duplicates(),
            forall|k: Seq<char>| self@.contains_key(k) <==> self.names().contains(k),
            self@.dom().finite(),
            self@.len() == self.names().len(),
    {
        lemma_map_of(self.entries@);
        let names = self.names();
        assert forall|k: Seq<char>| self@.contains_key(k) implies names.contains(k) by {
            let i = choose|i: int| 0 <= i < self.entries@.len() && #[trigger] self.entries@[i].0@ == k;
            assert(names[i] == k);
        }
        assert forall|k: Seq<char>| names.contains(k) implies self@.contains_key(k) by {
            let i = choose|i: int| 0 <= i < names.len() && names[i] == k;
            assert(self.entries@[i].0@ == k);
        }
        assert(names.no_duplicates());
        names.unique_seq_to_set();
        assert(names.to_set() =~= self@.dom());
    }

    /// The empty map.
    pub fn new() -> (r: MetricMap)
        ensures
            r.wf(),
            r@ == Map::<Seq<char>, MetricView>::empty(),
            r.names() == Seq::<Seq<char>>::empty(),
    {
        let r = MetricMap { entries: Vec::new() };
        assert(r.names() =~= Seq::<Seq<char>>::empty());
        r
    }

    /// Number of entries.
    pub fn len(&self) -> (n: usize)
        ensures
            n == self.names().len(),
    {
        self.entries.len()
    }

    /// Name of the entry at `index`.
    pub fn name_at(&self, index: usize) -> (name: &String)
        requires
            index < self.names().len(),
        ensures
            name@ == self.names()[index as int],
    {
        &self.entries[index].0
    }

    /// Value of the entry at `index`.
    pub fn value_at(&self, index: usize) -> (value: &MetricValue)
        requires
            index < self.names().len(),
        ensures
            self@.contains_key(self.names()[index as int]),
            value@ == self@[self.names()[index as int]],
    {
        proof {
            use_type_invariant(self);
            lemma_map_of(self.entries@);
            assert(self.entries@[index as int].0@ == self.names()[index as int]);
        }
        &self.entries[index].1
    }

    fn position(&self, key: &String) -> (r: Option<usize>)
        ensures
            match r {
                Some(i) => i < self.entries@.len() && self.entries@[i as int].0@ == key@,
                None => forall|i: int| 0 <= i < self.entries@.len() ==> self.entries@[i].0@ != key@,
            },
    {
        let mut i: usize = 0;
        while i < self.entries.len()
            invariant
                i <= self.entries@.len(),
                forall|k: int| 0 <= k < i ==> self.entries@[k].0@ != key@,
            decreases self.entries@.len() - i,
        {
            if self.entries[i].0 == *key {
                return Some(i);
            }
            i = i + 1;
        }
        None
    }

    /// The value under `key`, if there is one.
    pub fn get(&self, key: &str) -> (r: Option<&MetricValue>)
        ensures
            r.is_some() <==> self@.contains_key(key@),
            r.is_some() ==> r.unwrap()@ == self@[key@],
    {
        let owned: String = key.to_owned();
        proof {
            use_type_invariant(self);
            lemma_map_of(self.entries@);
        }
        match self.position(&owned) {
            Some(i) => {
                assert(self.entries@[i as int].0@ == key@);
                Some(&self.entries[i].1)
            },
            None => None,
        }
    }

    /// Binds `key` to `value`, replacing what was bound to it before. A
    /// name that is new comes last; a name that was bound keeps its place.
    pub fn insert(&mut self, key: &str, value: MetricValue)
        ensures
            final(self).wf(),
            final(self)@ == old(self)@.insert(key@, value@),
            final(self).names() == if old(self)@.contains_key(key@) {
                old(self).names()
            } else {
                old(self).names().push(key@)
            },
    {
        let owned: String = key.to_owned();
        let ghost before = self.entries@;
        proof {
            use_type_invariant(&*self);
            lemma_map_of(before);
        }
        let found = self.position(&owned);
        let mut entries: Vec<(String, MetricValue)> = Vec::new();
        core::mem::swap(&mut self.entries, &mut entries);
        match found {
            Some(i) => {
                entries.set(i, (owned, value));
                proof {
                    let after = entries@;
                    assert(distinct_keys(after)) by {
                        assert forall|a: int, b: int| 0 <= a < b < after.len() implies after[a].0@
                            != after[b].0@ by {
                            assert(before[a].0@ != before[b].0@);
                        }
                    }
                    lemma_map_of(after);
                    assert forall|k: Seq<char>| map_of(after).contains_key(k) <==> map_of(
                        before,
                    ).insert(key@, value@).contains_key(k) by {
                        if map_of(after).contains_key(k) {
                            let j = choose|j: int| 0 <= j < after.len() && #[trigger] after[j].0@ == k;
                            assert(before[j].0@ == k);
                        }
                        if map_of(before).insert(key@, value@).contains_key(k) {
                            if k == key@ {
                                assert(after[i as int].0@ == k);
                            } else {
                                let j = choose|j: int| 0 <= j < before.len() && #[trigger] before[j].0@ == k;
                                assert(after[j].0@ == k);
                            }
                        }
                    }
                    assert forall|k: Seq<char>| map_of(after).contains_key(k) implies map_of(
                        after,
                    )[k] == map_of(before).insert(key@, value@)[k] by {
                        let j = choose|j: int| 0 <= j < after.len() && #[trigger] after[j].0@ == k;
                        assert(map_of(after)[after[j].0@] == after[j].1@);
                        if j != i {
                            assert(map_of(before)[before[j].0@] == before[j].1@);
                            assert(before[j].0@ != before[i as int].0@);
                        }
                    }
                    assert(map_of(after) =~= map_of(before).insert(key@, value@));
                    assert(before[i as int].0@ == key@);
                    assert(Seq::new(after.len(), |x: int| after[x].0@) =~= Seq::new(
                        before.len(),
                        |x: int| before[x].0@,
                    ));
                }
            },
            None => {
                entries.push((owned, value));
                proof {
                    let after = entries@;
                    assert(after.drop_last() =~= before);
                    assert(Seq::new(after.len(), |x: int| after[x].0@) =~= Seq::new(
                        before.len(),
                        |x: int| before[x].0@,
                    ).push(key@));
                }
            },
        }
        core::mem::swap(&mut self.entries, &mut entries);
    }
}

/// Lists that agree entry by entry on what key and value stand for give the same map.
pub proof fn lemma_map_of_same(a: Seq<(String, MetricValue)>, b: Seq<(String, MetricValue)>)
    requires
        a.len() == b.len(),
        forall|i: int| 0 <= i < a.len() ==> a[i].0@ == b[i].0@ && a[i].1@ == b[i].1@,
    ensures
        map_of(a) == map_of(b),
        distinct_keys(a) <==> distinct_keys(b),
    decreases a.len(),
{
    if a.len() > 0 {
        lemma_map_of_same(a.drop_last(), b.drop_last());
    }
    if distinct_keys(a) {
        assert forall|i: int, j: int| 0 <= i < j < b.len() implies b[i].0@ != b[j].0@ by {
            assert(a[i].0@ != a[j].0@);
        }
    }
    if distinct_keys(b) {
        assert forall|i: int, j: int| 0 <= i < j < a.len() implies a[i].0@ != a[j].0@ by {
            assert(b[i].0@ != b[j].0@);
        }
    }
}

impl MetricMap {
    /// A copy that binds the same names to the same values, in the same order.
    pub fn duplicate(&self) -> (r: MetricMap)
        ensures
            r@ == self@,
            r.names() == self.names(),
            r.wf(),
    {
        proof {
            use_type_invariant(self);
        }
        let mut entries: Vec<(String, MetricValue)> = Vec::new();
        let mut i: usize = 0;
        while i < self.entries.len()
            invariant
                i <= self.entries@.len(),
                entries@.len() == i,
                forall|k: int|
                    0 <= k < i ==> entries@[k].0@ == self.entries@[k].0@ && entries@[k].1@
                        == self.entries@[k].1@,
            decreases self.entries@.len() - i,
        {
            let name: String = self.entries[i].0.clone();
            let value: MetricValue = self.entries[i].1.duplicate();
            entries.push((name, value));
            i = i + 1;
        }
        let r = MetricMap { entries };
        proof {
            lemma_map_of_same(r.entries@, self.entries@);
            assert(r.names() =~= self.names());
        }
        r
    }
}

impl MetricMap {
    /// Whether two maps bind the same names to the same values, in whatever order.
    pub fn same(&self, other: &MetricMap) -> (r: bool)
        ensures
            r == (self@ == other@),
    {
        proof {
            use_type_invariant(self);
            use_type_invariant(other);
            self.lemma_names();
            other.lemma_names();
            lemma_map_of(self.entries@);
            lemma_map_of(other.entries@);
        }
        if self.entries.len() != other.entries.len() {
            assert(self@.len() != other@.len());
            return false;
        }
        let mut i: usize = 0;
        while i < self.entries.len()
            invariant
                i <= self.entries@.len(),
                self.wf(),
                other.wf(),
                forall|k: int|
                    0 <= k < i ==> other@.contains_key(#[trigger] self.entries@[k].0@) && other@[self.entries@[k].0@]
                        == self.entries@[k].1@,
                forall|k: int|
                    0 <= k < self.entries@.len() ==> self@.contains_key(
                        #[trigger] self.entries@[k].0@,
                    ) && self@[self.entries@[k].0@] == self.entries@[k].1@,
            decreases self.entries@.len() - i,
        {
            match other.position(&self.entries[i].0) {
                Some(j) => {
                    proof {
                        lemma_map_of(other.entries@);
                        assert(other@[other.entries@[j as int].0@] == other.entries@[j as int].1@);
                    }
                    if !self.entries[i].1.same(&other.entries[j].1) {
                        assert(self@[self.entries@[i as int].0@] != other@[self.entries@[i as int].0@]);
                        return false;
                    }
                },
                None => {
                    proof {
                        lemma_map_of(other.entries@);
                        assert(!other@.contains_key(self.entries@[i as int].0@));
                    }
                    return false;
                },
            }
            i = i + 1;
        }
        proof {
            assert(self@.dom().subset_of(other@.dom())) by {
                assert forall|k: Seq<char>| self@.dom().contains(k) implies other@.dom().contains(
                    k,
                ) by {
                    let x = choose|x: int|
                        0 <= x < self.entries@.len() && #[trigger] self.entries@[x].0@ == k;
                    assert(other@.contains_key(self.entries@[x].0@));
                }
            }
            vstd::set_lib::lemma_subset_equality(self@.dom(), other@.dom());
            assert forall|k: Seq<char>| self@.dom().contains(k) implies self@[k] == other@[k] by {
                let x = choose|x: int|
                    0 <= x < self.entries@.len() && #[trigger] self.entries@[x].0@ == k;
                assert(other@[self.entries@[x].0@] == self.entries@[x].1@);
            }
            assert(self@ =~= other@);
        }
        true
    }
}

impl Clone for MetricMap {
    fn clone(&self) -> (r: MetricMap)
        ensures
            r@ == self@,
            r.names() == self.names(),
    {
        self.duplicate()
    }
}

/// Whether `name` is one of the well-known field names.
pub open spec fn is_well_known(name: Seq<char>) -> bool {
    ||| name == "duration_ms"@
    ||| name == "ops_per_second"@
    ||| name == "bytes_per_second"@
    ||| name == "latency_p50_ms"@
    ||| name == "latency_p95_ms"@
    ||| name == "latency_p99_ms"@
    ||| name == "memory_bytes"@
    ||| name == "iterations"@
    ||| name == "data_size_bytes"@
    ||| name == "success_rate"@
}

/// Every well-known field name has one of these lengths and first letters.
pub proof fn lemma_well_known_shape(name: Seq<char>)
    requires
        is_well_known(name),
    ensures
        name.len() > 0,
        (name.len() == 11 && name[0] == 'd') || (name.len() == 14 && name[0] == 'o') || (name.len()
            == 16 && name[0] == 'b') || (name.len() == 14 && name[0] == 'l') || (name.len() == 12
            && name[0] == 'm') || (name.len() == 10 && name[0] == 'i') || (name.len() == 15
            && name[0] == 'd') || (name.len() == 12 && name[0] == 's'),
{
    reveal_strlit("duration_ms");
    reveal_strlit("ops_per_second");
    reveal_strlit("bytes_per_second");
    reveal_strlit("latency_p50_ms");
    reveal_strlit("latency_p95_ms");
    reveal_strlit("latency_p99_ms");
    reveal_strlit("memory_bytes");
    reveal_strlit("iterations");
    reveal_strlit("data_size_bytes");
    reveal_strlit("success_rate");
}

/// Whether `name` is one of the well-known field names.
pub fn is_well_known_name(name: &str) -> (r: bool)
    ensures
        r == is_well_known(name@),
{
    same_text(name, "duration_ms") || same_text(name, "ops_per_second") || same_text(
        name,
        "bytes_per_second",
    ) || same_text(name, "latency_p50_ms") || same_text(name, "latency_p95_ms") || same_text(
        name,
        "latency_p99_ms",
    ) || same_text(name, "memory_bytes") || same_text(name, "iterations") || same_text(
        name,
        "data_size_bytes",
    ) || same_text(name, "success_rate")
}

/// `map` with `name` bound to the decimal, where there is one.
pub open spec fn with_real(
    map: Map<Seq<char>, MetricView>,
    name: Seq<char>,
    value: Option<Decimal>,
) -> Map<Seq<char>, MetricView> {
    match value {
        Some(d) => map.insert(name, MetricView::Real(d.millionths)),
        None => map,
    }
}

/// `map` with `name` bound to the count, where there is one.
pub open spec fn with_count(
    map: Map<Seq<char>, MetricView>,
    name: Seq<char>,
    value: Option<u64>,
) -> Map<Seq<char>, MetricView> {
    match value {
        Some(n) => map.insert(name, MetricView::Count(n)),
        None => map,
    }
}

/// What a `StandardMetrics` record stands for: its fields, with the custom
/// values as a map.
pub struct MetricsView {
    pub duration_ms: Option<Decimal>,
    pub ops_per_second: Option<Decimal>,
    pub bytes_per_second: Option<Decimal>,
    pub latency_p50_ms: Option<Decimal>,
    pub latency_p95_ms: Option<Decimal>,
    pub latency_p99_ms: Option<Decimal>,
    pub memory_bytes: Option<u64>,
    pub iterations: Option<u64>,
    pub data_size_bytes: Option<u64>,
    pub success_rate: Option<Decimal>,
    pub custom: Map<Seq<char>, MetricView>,
}

/// The record with no field set and no custom value.
pub open spec fn empty_metrics() -> MetricsView {
    MetricsView {
        duration_ms: None,
        ops_per_second: None,
        bytes_per_second: None,
        latency_p50_ms: None,
        latency_p95_ms: None,
        latency_p99_ms: None,
        memory_bytes: None,
        iterations: None,
        data_size_bytes: None,
        success_rate: None,
        custom: Map::empty(),
    }
}

/// A record as one map: the custom values and every well-known field that is set.
pub open spec fn flatten(v: MetricsView) -> Map<Seq<char>, MetricView> {
    let m0 = v.custom;
    let m1 = with_real(m0, "duration_ms"@, v.duration_ms);
    let m2 = with_real(m1, "ops_per_second"@, v.ops_per_second);
    let m3 = with_real(m2, "bytes_per_second"@, v.bytes_per_second);
    let m4 = with_real(m3, "latency_p50_ms"@, v.latency_p50_ms);
    let m5 = with_real(m4, "latency_p95_ms"@, v.latency_p95_ms);
    let m6 = with_real(m5, "latency_p99_ms"@, v.latency_p99_ms);
    let m7 = with_count(m6, "memory_bytes"@, v.memory_bytes);
    let m8 = with_count(m7, "iterations"@, v.iterations);
    let m9 = with_count(m8, "data_size_bytes"@, v.data_size_bytes);
    with_real(m9, "success_rate"@, v.success_rate)
}

/// The measurements of one run. Times are in milliseconds, sizes in bytes.
#[derive(Clone, Debug)]
pub struct StandardMetrics {
    /// Duration in milliseconds.
    pub duration_ms: Option<Decimal>,
    /// Throughput in operations per second.
    pub ops_per_second: Option<Decimal>,
    /// Throughput in bytes per second.
    pub bytes_per_second: Option<Decimal>,
    /// Median latency in milliseconds.
    pub latency_p50_ms: Option<Decimal>,
    /// 95th-percentile latency in milliseconds.
    pub latency_p95_ms: Option<Decimal>,
    /// 99th-percentile latency in milliseconds.
    pub latency_p99_ms: Option<Decimal>,
    /// Memory usage in bytes.
    pub memory_bytes: Option<u64>,
    /// Number of iterations.
    pub iterations: Option<u64>,
    /// Data size in bytes.
    pub data_size_bytes: Option<u64>,
    /// Success rate between 0 and 1.
    pub success_rate: Option<Decimal>,
    /// Target-specific values under names of their own.
    pub custom: MetricMap,
}

impl View for StandardMetrics {
    type V = MetricsView;

    open spec fn view(&self) -> MetricsView {
        MetricsView {
            duration_ms: self.duration_ms,
            ops_per_second: self.ops_per_second,
            bytes_per_second: self.bytes_per_second,
            latency_p50_ms: self.latency_p50_ms,
            latency_p95_ms: self.latency_p95_ms,
            latency_p99_ms: self.latency_p99_ms,
            memory_bytes: self.memory_bytes,
            iterations: self.iterations,
            data_size_bytes: self.data_size_bytes,
            success_rate: self.success_rate,
            custom: self.custom@,
        }
    }
}

impl StandardMetrics {
    /// No custom name is a well-known field name.
    pub open spec fn wf(&self) -> bool {
        forall|k: Seq<char>| self.custom@.contains_key(k) ==> !is_well_known(k)
    }

    /// The record as one map: the custom values and every well-known field that is set.
    pub open spec fn flattened(&self) -> Map<Seq<char>, MetricView> {
        flatten(self@)
    }

    /// A record with nothing set.
    pub fn new() -> (r: StandardMetrics)
        ensures
            r.wf(),
            r@ == empty_metrics(),
    {
        StandardMetrics {
            duration_ms: None,
            ops_per_second: None,
            bytes_per_second: None,
            latency_p50_ms: None,
            latency_p95_ms: None,
            latency_p99_ms: None,
            memory_bytes: None,
            iterations: None,
            data_size_bytes: None,
            success_rate: None,
            custom: MetricMap::new(),
        }
    }

    /// Sets the duration.
    pub fn with_duration_ms(self, duration_ms: Decimal) -> (r: StandardMetrics)
        ensures
            r == (StandardMetrics { duration_ms: Some(duration_ms), ..self }),
    {
        let mut r = self;
        r.duration_ms = Some(duration_ms);
        r
    }

    /// Sets the throughput in operations per second.
    pub fn with_ops_per_second(self, ops: Decimal) -> (r: StandardMetrics)
        ensures
            r == (StandardMetrics { ops_per_second: Some(ops), ..self }),
    {
        let mut r = self;
        r.ops_per_second = Some(ops);
        r
    }

    /// Sets the throughput in bytes per second.
    pub fn with_bytes_per_second(self, bps: Decimal) -> (r: StandardMetrics)
        ensures
            r == (StandardMetrics { bytes_per_second: Some(bps), ..self }),
    {
        let mut r = self;
        r.bytes_per_second = Some(bps);
        r
    }

    /// Sets the three latency percentiles.
    pub fn with_latencies(self, p50: Decimal, p95: Decimal, p99: Decimal) -> (r: StandardMetrics)
        ensures
            r == (StandardMetrics {
                latency_p50_ms: Some(p50),
                latency_p95_ms: Some(p95),
                latency_p99_ms: Some(p99),
                ..self
            }),
    {
        let mut r = self;
        r.latency_p50_ms = Some(p50);
        r.latency_p95_ms = Some(p95);
        r.latency_p99_ms = Some(p99);
        r
    }

    /// Sets the data size.
    pub fn with_data_size(self, bytes: u64) -> (r: StandardMetrics)
        ensures
            r == (StandardMetrics { data_size_bytes: Some(bytes), ..self }),
    {
        let mut r = self;
        r.data_size_bytes = Some(bytes);
        r
    }

    /// Sets the number of iterations.
    pub fn with_iterations(self, iterations: u64) -> (r: StandardMetrics)
        ensures
            r == (StandardMetrics { iterations: Some(iterations), ..self }),
    {
        let mut r = self;
        r.iterations = Some(iterations);
        r
    }

    /// Binds a custom name, which is none of the well-known ones, to a value.
    pub fn with_custom(self, key: &str, value: MetricValue) -> (r: StandardMetrics)
        requires
            !is_well_known(key@),
        ensures
            self.wf() ==> r.wf(),
            r@ == (MetricsView { custom: self.custom@.insert(key@, value@), ..self@ }),
    {
        let mut r = self;
        r.custom.insert(key, value);
        r
    }

    /// The record as one map of names to values.
    pub fn to_json_value(&self) -> (r: MetricMap)
        ensures
            r@ == self.flattened(),
    {
        let mut r: MetricMap = self.custom.duplicate();
        if let Some(d) = self.duration_ms {
            r.insert("duration_ms", MetricValue::Real(d));
        }
        if let Some(d) = self.ops_per_second {
            r.insert("ops_per_second", MetricValue::Real(d));
        }
        if let Some(d) = self.bytes_per_second {
            r.insert("bytes_per_second", MetricValue::Real(d));
        }
        if let Some(d) = self.latency_p50_ms {
            r.insert("latency_p50_ms", MetricValue::Real(d));
        }
        if let Some(d) = self.latency_p95_ms {
            r.insert("latency_p95_ms", MetricValue::Real(d));
        }
        if let Some(d) = self.latency_p99_ms {
            r.insert("latency_p99_ms", MetricValue::Real(d));
        }
        if let Some(n) = self.memory_bytes {
            r.insert("memory_bytes", MetricValue::Count(n));
        }
        if let Some(n) = self.iterations {
            r.insert("iterations", MetricValue::Count(n));
        }
        if let Some(n) = self.data_size_bytes {
            r.insert("data_size_bytes", MetricValue::Count(n));
        }
        if let Some(d) = self.success_rate {
            r.insert("success_rate", MetricValue::Real(d));
        }
        r
    }
}

impl Default for StandardMetrics {
    fn default() -> (r: StandardMetrics)
        ensures
            r.wf(),
            r@ == empty_metrics(),
    {
        StandardMetrics::new()
    }
}

} // verus!
