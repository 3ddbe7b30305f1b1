//! Deduplication of detector findings: findings with the same key (detector,
//! VM, entity, range, symbol) are folded into one aggregate that counts them,
//! keeps the first and last observation time and the latest record. The
//! aggregates are kept in key order.
use vstd::prelude::*;
use crate::detectors::{clone_opt, DetectionKind, DetectionRecord, DetectorError};
use crate::order::{
    compare_str, lemma_order_antisym, lemma_order_eq, lemma_order_range, lemma_order_trans,
    seq_order,
};
use crate::text::owned;

verus! {

#[derive(Debug, Clone, PartialEq, Eq)]
pub struct DetectionDedupeKey {
    pub detector_id: String,
    pub vm_id: Option<String>,
    pub entity: Option<String>,
    pub range_start: Option<u64>,
    pub range_end: Option<u64>,
    pub symbol: Option<String>,
}

/// The texts and numbers of a key.
pub type KeyView = (
    Seq<char>,
    Option<Seq<char>>,
    Option<Seq<char>>,
    Option<u64>,
    Option<u64>,
    Option<Seq<char>>,
);

/// An optional string's text.
pub open spec fn opt_view(o: Option<String>) -> Option<Seq<char>> {
    match o {
        Some(s) => Some(s@),
        None => None,
    }
}

/// Order of optional texts: absent first, then by text.
pub open spec fn opt_text_order(a: Option<Seq<char>>, b: Option<Seq<char>>) -> int {
    match (a, b) {
        (None, None) => 0,
        (None, Some(_)) => -1,
        (Some(_), None) => 1,
        (Some(x), Some(y)) => seq_order(x, y),
    }
}

/// Order of optional numbers: absent first, then by value.
pub open spec fn opt_num_order(a: Option<u64>, b: Option<u64>) -> int {
    match (a, b) {
        (None, None) => 0,
        (None, Some(_)) => -1,
        (Some(_), None) => 1,
        (Some(x), Some(y)) => if x < y {
            -1
        } else if x > y {
            1
        } else {
            0
        },
    }
}

/// Lexicographic order of keys, field by field, as the derived `Ord` orders them.
pub open spec fn key_order(a: KeyView, b: KeyView) -> int {
    let c0 = seq_order(a.0, b.0);
    let c1 = opt_text_order(a.1, b.1);
    let c2 = opt_text_order(a.2, b.2);
    let c3 = opt_num_order(a.3, b.3);
    let c4 = opt_num_order(a.4, b.4);
    let c5 = opt_text_order(a.5, b.5);
    if c0 != 0 {
        c0
    } else if c1 != 0 {
        c1
    } else if c2 != 0 {
        c2
    } else if c3 != 0 {
        c3
    } else if c4 != 0 {
        c4
    } else {
        c5
    }
}

impl DetectionDedupeKey {
    pub open spec fn view(&self) -> KeyView {
        (
            self.detector_id@,
            opt_view(self.vm_id),
            opt_view(self.entity),
            self.range_start,
            self.range_end,
            opt_view(self.symbol),
        )
    }

    /// The key of a finding.
    pub fn from_record(record: &DetectionRecord) -> (r: Self)
        ensures
            r.detector_id == record.detector_id,
            r.vm_id == record.vm_id,
            r.entity == record.entity,
            r.range_start == record.range_start,
            r.range_end == record.range_end,
            r.symbol == record.symbol,
    {
        DetectionDedupeKey {
            detector_id: record.detector_id.clone(),
            vm_id: clone_opt(&record.vm_id),
            entity: clone_opt(&record.entity),
            range_start: record.range_start,
            range_end: record.range_end,
            symbol: clone_opt(&record.symbol),
        }
    }

    /// A copy of the key.
    pub fn duplicate(&self) -> (r: Self)
        ensures
            r == *self,
    {
        DetectionDedupeKey {
            detector_id: self.detector_id.clone(),
            vm_id: clone_opt(&self.vm_id),
            entity: clone_opt(&self.entity),
            range_start: self.range_start,
            range_end: self.range_end,
            symbol: clone_opt(&self.symbol),
        }
    }
}

proof fn lemma_opt_text(a: Option<Seq<char>>, b: Option<Seq<char>>)
    ensures
        -1 <= opt_text_order(a, b) <= 1,
        (opt_text_order(a, b) == 0) <==> (a == b),
        opt_text_order(a, b) == -opt_text_order(b, a),
{
    if let (Some(x), Some(y)) = (a, b) {
        lemma_order_range(x, y);
        lemma_order_eq(x, y);
        lemma_order_antisym(x, y);
    }
}

proof fn lemma_opt_text_trans(a: Option<Seq<char>>, b: Option<Seq<char>>, c: Option<Seq<char>>)
    requires
        opt_text_order(a, b) < 0,
        opt_text_order(b, c) < 0,
    ensures
        opt_text_order(a, c) < 0,
{
    if let (Some(x), Some(y), Some(z)) = (a, b, c) {
        lemma_order_trans(x, y, z);
    }
}

/// Key order: equal means the same key, it is antisymmetric and transitive.
pub proof fn lemma_key_order(a: KeyView, b: KeyView)
    ensures
        (key_order(a, b) == 0) <==> (a == b),
        key_order(a, b) == -key_order(b, a),
{
    lemma_order_range(a.0, b.0);
    lemma_order_eq(a.0, b.0);
    lemma_order_antisym(a.0, b.0);
    lemma_opt_text(a.1, b.1);
    lemma_opt_text(a.2, b.2);
    lemma_opt_text(a.5, b.5);
}

pub proof fn lemma_key_order_trans(a: KeyView, b: KeyView, c: KeyView)
    requires
        key_order(a, b) < 0,
        key_order(b, c) < 0,
    ensures
        key_order(a, c) < 0,
{
    lemma_key_order(a, b);
    lemma_key_order(b, c);
    lemma_key_order(a, c);
    lemma_order_range(a.0, b.0);
    lemma_order_range(b.0, c.0);
    lemma_order_eq(a.0, b.0);
    lemma_order_eq(b.0, c.0);
    lemma_order_eq(a.0, c.0);
    lemma_opt_text(a.1, b.1);
    lemma_opt_text(b.1, c.1);
    lemma_opt_text(a.1, c.1);
    lemma_opt_text(a.2, b.2);
    lemma_opt_text(b.2, c.2);
    lemma_opt_text(a.2, c.2);
    lemma_opt_text(a.5, b.5);
    lemma_opt_text(b.5, c.5);
    lemma_opt_text(a.5, c.5);
    if seq_order(a.0, b.0) < 0 && seq_order(b.0, c.0) < 0 {
        lemma_order_trans(a.0, b.0, c.0);
    }
    if opt_text_order(a.1, b.1) < 0 && opt_text_order(b.1, c.1) < 0 {
        lemma_opt_text_trans(a.1, b.1, c.1);
    }
    if opt_text_order(a.2, b.2) < 0 && opt_text_order(b.2, c.2) < 0 {
        lemma_opt_text_trans(a.2, b.2, c.2);
    }
    if opt_text_order(a.5, b.5) < 0 && opt_text_order(b.5, c.5) < 0 {
        lemma_opt_text_trans(a.5, b.5, c.5);
    }
}

fn compare_opt_text(a: &Option<String>, b: &Option<String>) -> (r: i8)
    ensures
        r == opt_text_order(opt_view(*a), opt_view(*b)),
{
    match (a, b) {
        (None, None) => 0,
        (None, Some(_)) => -1,
        (Some(_), None) => 1,
        (Some(x), Some(y)) => compare_str(x.as_str(), y.as_str()),
    }
}

fn compare_opt_num(a: Option<u64>, b: Option<u64>) -> (r: i8)
    ensures
        r == opt_num_order(a, b),
{
    match (a, b) {
        (None, None) => 0,
        (None, Some(_)) => -1,
        (Some(_), None) => 1,
        (Some(x), Some(y)) => if x < y {
            -1
        } else if x > y {
            1
        } else {
            0
        },
    }
}

fn compare_keys(a: &DetectionDedupeKey, b: &DetectionDedupeKey) -> (r: i8)
    ensures
        r == key_order(a.view(), b.view()),
{
    let c0 = compare_str(a.detector_id.as_str(), b.detector_id.as_str());
    if c0 != 0 {
        return c0;
    }
    let c1 = compare_opt_text(&a.vm_id, &b.vm_id);
    if c1 != 0 {
        return c1;
    }
    let c2 = compare_opt_text(&a.entity, &b.entity);
    if c2 != 0 {
        return c2;
    }
    let c3 = compare_opt_num(a.range_start, b.range_start);
    if c3 != 0 {
        return c3;
    }
    let c4 = compare_opt_num(a.range_end, b.range_end);
    if c4 != 0 {
        return c4;
    }
    compare_opt_text(&a.symbol, &b.symbol)
}

#[derive(Debug, Clone, PartialEq, Eq)]
pub struct AggregatedDetection {
    pub key: DetectionDedupeKey,
    pub kind: DetectionKind,
    pub count: u64,
    pub first_seen_ms: u64,
    pub last_seen_ms: u64,
    pub latest: DetectionRecord,
}

impl AggregatedDetection {
    /// A copy of the aggregate.
    pub fn duplicate(&self) -> (r: Self)
        ensures
            r.key == self.key,
            r.kind == self.kind,
            r.count == self.count,
            r.first_seen_ms == self.first_seen_ms,
            r.last_seen_ms == self.last_seen_ms,
            r.latest == (DetectionRecord { tags: r.latest.tags, ..self.latest }),
            r.latest.tags@ == self.latest.tags@,
    {
        AggregatedDetection {
            key: self.key.duplicate(),
            kind: self.kind,
            count: self.count,
            first_seen_ms: self.first_seen_ms,
            last_seen_ms: self.last_seen_ms,
            latest: self.latest.duplicate(),
        }
    }
}

#[derive(Debug, Clone, PartialEq, Eq)]
pub struct DetectionAggregator {
    pub entries: Vec<AggregatedDetection>,
}

/// The aggregates are in strictly increasing key order (so no key occurs twice).
pub open spec fn keys_sorted(s: Seq<AggregatedDetection>) -> bool {
    forall|i: int, j: int|
        0 <= i < j < s.len() ==> key_order((#[trigger] s[i]).key.view(), (#[trigger] s[j]).key.view())
            < 0
}

/// Position of the aggregate with the given key, if any.
pub open spec fn key_index(s: Seq<AggregatedDetection>, k: KeyView) -> Option<int> {
    if exists|i: int| 0 <= i < s.len() && (#[trigger] s[i]).key.view() == k {
        Some(choose|i: int| 0 <= i < s.len() && (#[trigger] s[i]).key.view() == k)
    } else {
        None
    }
}

/// The aggregate after one more observation of `record` at `observed_ms`.
pub open spec fn bumped(
    old: AggregatedDetection,
    new: AggregatedDetection,
    record: DetectionRecord,
    observed_ms: u64,
) -> bool {
    &&& new.key == old.key
    &&& new.kind == old.kind
    &&& new.count == (if old.count == u64::MAX {
        u64::MAX
    } else {
        (old.count + 1) as u64
    })
    &&& new.first_seen_ms == old.first_seen_ms
    &&& new.last_seen_ms == observed_ms
    &&& new.latest == record
}

/// The first aggregate of a finding observed at `observed_ms`.
pub open spec fn fresh(new: AggregatedDetection, record: DetectionRecord, observed_ms: u64) -> bool {
    &&& new.key.view() == (
        record.detector_id@,
        opt_view(record.vm_id),
        opt_view(record.entity),
        record.range_start,
        record.range_end,
        opt_view(record.symbol),
    )
    &&& new.kind == record.kind
    &&& new.count == 1
    &&& new.first_seen_ms == observed_ms
    &&& new.last_seen_ms == observed_ms
    &&& new.latest == record
}

/// The key of a finding.
pub open spec fn record_key(record: DetectionRecord) -> KeyView {
    (
        record.detector_id@,
        opt_view(record.vm_id),
        opt_view(record.entity),
        record.range_start,
        record.range_end,
        opt_view(record.symbol),
    )
}

/// `a` and `b` agree but for the tags of the latest record, which have the same text.
pub open spec fn same_aggregate(a: AggregatedDetection, b: AggregatedDetection) -> bool {
    &&& a.key == b.key
    &&& a.kind == b.kind
    &&& a.count == b.count
    &&& a.first_seen_ms == b.first_seen_ms
    &&& a.last_seen_ms == b.last_seen_ms
    &&& a.latest == (DetectionRecord { tags: a.latest.tags, ..b.latest })
    &&& a.latest.tags@ == b.latest.tags@
}

/// What one `observe` call does to the aggregates `before`, giving `after`
/// and the result `r`: a zero timestamp is refused and changes nothing; a
/// known key has its aggregate bumped in place; a new key gets a fresh
/// aggregate inserted.
pub open spec fn observed(
    before: Seq<AggregatedDetection>,
    after: Seq<AggregatedDetection>,
    record: DetectionRecord,
    observed_ms: u64,
    r: Result<AggregatedDetection, DetectorError>,
) -> bool {
    if observed_ms == 0 {
        &&& r matches Err(DetectorError::MalformedInput { detail })
        &&& detail@ == "detector observation timestamp must be non-zero"@
        &&& after == before
    } else {
        &&& r is Ok
        &&& match key_index(before, record_key(record)) {
            Some(i) => {
                &&& after.len() == before.len()
                &&& bumped(before[i], after[i], record, observed_ms)
                &&& forall|j: int| 0 <= j < before.len() && j != i ==> after[j] == before[j]
                &&& r matches Ok(a) && same_aggregate(a, after[i])
            },
            None => exists|p: int|
                0 <= p <= before.len() && after == before.insert(p, after[p]) && fresh(
                    after[p],
                    record,
                    observed_ms,
                ) && (r matches Ok(a) && same_aggregate(a, after[p])),
        }
    }
}

impl DetectionAggregator {
    /// The aggregates are in strictly increasing key order, and each has
    /// been observed at least once.
    pub open spec fn wf(&self) -> bool {
        &&& keys_sorted(self.entries@)
        &&& forall|i: int| 0 <= i < self.entries@.len() ==> (#[trigger] self.entries@[i]).count >= 1
    }

    pub fn new() -> (r: Self)
        ensures
            r.wf(),
            r.entries@.len() == 0,
    {
        DetectionAggregator { entries: Vec::new() }
    }

    /// Folds one finding into its aggregate, creating it on first sight.
    pub fn observe(&mut self, record: DetectionRecord, observed_ms: u64) -> (r: Result<
        AggregatedDetection,
        DetectorError,
    >)
        requires
            old(self).wf(),
        ensures
            final(self).wf(),
            observed(old(self).entries@, final(self).entries@, record, observed_ms, r),
    {
        if observed_ms == 0 {
            return Err(
                DetectorError::MalformedInput {
                    detail: owned("detector observation timestamp must be non-zero"),
                },
            );
        }
        let key = DetectionDedupeKey::from_record(&record);
        let n = self.entries.len();
        let mut i: usize = 0;
        let mut stop = false;
        while !stop && i < n
            invariant
                n == self.entries@.len(),
                self.entries@ == old(self).entries@,
                keys_sorted(old(self).entries@),
                key.view() == record_key(record),
                i <= n,
                forall|k: int|
                    0 <= k < i ==> key_order((#[trigger] self.entries@[k]).key.view(), key.view()) < 0,
                stop ==> i < n && key_order(key.view(), self.entries@[i as int].key.view()) <= 0,
            decreases n - i + (if stop {
                0int
            } else {
                1int
            }),
        {
            let c = compare_keys(&self.entries[i].key, &key);
            if c >= 0 {
                proof {
                    lemma_key_order(self.entries@[i as int].key.view(), key.view());
                }
                stop = true;
            } else {
                i = i + 1;
            }
        }
        let ghost old_entries = self.entries@;
        proof {
            assert forall|k: int| 0 <= k < n && k != i implies (#[trigger] old_entries[k]).key.view()
                != key.view() by {
                if k < i {
                    lemma_key_order(old_entries[k].key.view(), key.view());
                } else {
                    lemma_key_order(key.view(), old_entries[i as int].key.view());
                    lemma_key_order(old_entries[i as int].key.view(), old_entries[k].key.view());
                    lemma_key_order(key.view(), old_entries[k].key.view());
                    if key_order(key.view(), old_entries[i as int].key.view()) < 0 {
                        lemma_key_order_trans(key.view(), old_entries[i as int].key.view(), old_entries[k].key.view());
                    }
                }
            }
        }
        if stop && compare_keys(&self.entries[i].key, &key) == 0 {
            proof {
                lemma_key_order(old_entries[i as int].key.view(), key.view());
                assert(key_index(old_entries, record_key(record)) == Some(i as int));
            }
            let old_entry = self.entries[i].duplicate();
            let count = old_entry.count.saturating_add(1);
            let updated = AggregatedDetection {
                key: old_entry.key,
                kind: old_entry.kind,
                count,
                first_seen_ms: old_entry.first_seen_ms,
                last_seen_ms: observed_ms,
                latest: record,
            };
            let out = updated.duplicate();
            self.entries.set(i, updated);
            proof {
                assert forall|a: int| 0 <= a < self.entries@.len() implies (#[trigger] self.entries@[a]).count >= 1 by {
                    if a != i {
                        assert(self.entries@[a] == old_entries[a]);
                    }
                }
                assert forall|a: int, b: int| 0 <= a < b < self.entries@.len() implies key_order(
                    (#[trigger] self.entries@[a]).key.view(),
                    (#[trigger] self.entries@[b]).key.view(),
                ) < 0 by {
                    assert(self.entries@[a].key == old_entries[a].key);
                    assert(self.entries@[b].key == old_entries[b].key);
                }
            }
            return Ok(out);
        }
        proof {
            if stop {
                lemma_key_order(old_entries[i as int].key.view(), key.view());
            }
            assert(key_index(old_entries, record_key(record)) is None);
        }
        let fresh_entry = AggregatedDetection {
            key,
            kind: record.kind,
            count: 1,
            first_seen_ms: observed_ms,
            last_seen_ms: observed_ms,
            latest: record,
        };
        let out = fresh_entry.duplicate();
        self.entries.insert(i, fresh_entry);
        proof {
            let nv = self.entries@;
            assert forall|a: int| 0 <= a < nv.len() implies (#[trigger] nv[a]).count >= 1 by {
                if a < i {
                    assert(nv[a] == old_entries[a]);
                } else if a > i {
                    assert(nv[a] == old_entries[a - 1]);
                }
            }
            let kv = nv[i as int].key.view();
            assert(nv == old_entries.insert(i as int, nv[i as int]));
            assert forall|a: int, b: int| 0 <= a < b < nv.len() implies key_order(
                (#[trigger] nv[a]).key.view(),
                (#[trigger] nv[b]).key.view(),
            ) < 0 by {
                if b < i {
                    assert(nv[a] == old_entries[a] && nv[b] == old_entries[b]);
                } else if a < i && b == i {
                    assert(nv[a] == old_entries[a]);
                } else if a < i && b > i {
                    assert(nv[a] == old_entries[a] && nv[b] == old_entries[b - 1]);
                } else if a == i {
                    assert(nv[b] == old_entries[b - 1]);
                    lemma_key_order(kv, old_entries[i as int].key.view());
                    if b - 1 > i {
                        lemma_key_order_trans(kv, old_entries[i as int].key.view(), old_entries[b - 1].key.view());
                    }
                } else {
                    assert(nv[a] == old_entries[a - 1] && nv[b] == old_entries[b - 1]);
                }
            }
        }
        Ok(out)
    }

    /// The aggregate with the given key.
    pub fn get(&self, key: &DetectionDedupeKey) -> (r: Option<&AggregatedDetection>)
        requires
            self.wf(),
        ensures
            match key_index(self.entries@, key.view()) {
                Some(i) => r == Some(&self.entries@[i]),
                None => r is None,
            },
    {
        let mut i: usize = 0;
        while i < self.entries.len()
            invariant
                i <= self.entries@.len(),
                keys_sorted(self.entries@),
                forall|k: int| 0 <= k < i ==> (#[trigger] self.entries@[k]).key.view() != key.view(),
            decreases self.entries@.len() - i,
        {
            let c = compare_keys(&self.entries[i].key, key);
            proof {
                lemma_key_order(self.entries@[i as int].key.view(), key.view());
            }
            if c == 0 {
                proof {
                    assert forall|k: int| 0 <= k < self.entries@.len() && (#[trigger] self.entries@[k]).key.view() == key.view() implies k == i by {
                        if k < i {
                        } else if k > i {
                            lemma_key_order(self.entries@[i as int].key.view(), self.entries@[k].key.view());
                        }
                    }
                }
                return Some(&self.entries[i]);
            }
            i = i + 1;
        }
        None
    }

    /// The aggregates in key order.
    pub fn entries(&self) -> (r: &[AggregatedDetection])
        ensures
            r@ == self.entries@,
    {
        self.entries.as_slice()
    }

    pub fn len(&self) -> (r: usize)
        ensures
            r == self.entries@.len(),
    {
        self.entries.len()
    }

    pub fn is_empty(&self) -> (r: bool)
        ensures
            r == (self.entries@.len() == 0),
    {
        self.entries.len() == 0
    }
}

impl Default for DetectionAggregator {
    fn default() -> (r: Self)
        ensures
            r.wf(),
            r.entries@.len() == 0,
    {
        DetectionAggregator::new()
    }
}

/// What a well-formed aggregator lists: each aggregate once, in strictly
/// increasing key order, each observed at least once, and each the one that
/// a lookup of its own key finds.
pub proof fn lemma_aggregator_entries(agg: DetectionAggregator)
    requires
        agg.wf(),
    ensures
        forall|i: int, j: int|
            0 <= i < j < agg.entries@.len() ==> key_order(
                (#[trigger] agg.entries@[i]).key.view(),
                (#[trigger] agg.entries@[j]).key.view(),
            ) < 0,
        forall|i: int| 0 <= i < agg.entries@.len() ==> (#[trigger] agg.entries@[i]).count >= 1,
        forall|i: int|
            0 <= i < agg.entries@.len() ==> key_index(agg.entries@, (#[trigger] agg.entries@[i]).key.view()) == Some(i),
{
    let s = agg.entries@;
    assert forall|i: int| 0 <= i < s.len() implies key_index(s, (#[trigger] s[i]).key.view()) == Some(i) by {
        let k = s[i].key.view();
        assert(exists|x: int| 0 <= x < s.len() && (#[trigger] s[x]).key.view() == k);
        let c = choose|x: int| 0 <= x < s.len() && (#[trigger] s[x]).key.view() == k;
        if c < i {
            lemma_key_order(s[c].key.view(), s[i].key.view());
        } else if c > i {
            lemma_key_order(s[i].key.view(), s[c].key.view());
        }
    }
}

/// The keys of the aggregates, in order.
pub open spec fn keys_of(s: Seq<AggregatedDetection>) -> Seq<KeyView> {
    s.map_values(|e: AggregatedDetection| e.key.view())
}

/// Some aggregate has key `k`.
pub open spec fn has_key(s: Seq<AggregatedDetection>, k: KeyView) -> bool {
    exists|i: int| 0 <= i < s.len() && (#[trigger] s[i]).key.view() == k
}

/// The keys of the findings that a sequence of observations accepted.
pub open spec fn observed_keys(h: Seq<(DetectionRecord, u64)>) -> Set<KeyView>
    decreases h.len(),
{
    if h.len() == 0 {
        Set::empty()
    } else if h.last().1 != 0 {
        observed_keys(h.drop_last()).insert(record_key(h.last().0))
    } else {
        observed_keys(h.drop_last())
    }
}

/// One observation adds its finding's key when it is accepted, and no other.
pub proof fn lemma_observe_keys(
    before: Seq<AggregatedDetection>,
    after: Seq<AggregatedDetection>,
    record: DetectionRecord,
    observed_ms: u64,
    r: Result<AggregatedDetection, DetectorError>,
    k: KeyView,
)
    requires
        observed(before, after, record, observed_ms, r),
    ensures
        has_key(after, k) <==> (has_key(before, k) || (observed_ms != 0 && k == record_key(record))),
{
    if observed_ms != 0 {
        let rk = record_key(record);
        match key_index(before, rk) {
            Some(i) => {
                if has_key(after, k) {
                    let j = choose|j: int| 0 <= j < after.len() && (#[trigger] after[j]).key.view() == k;
                    if j != i {
                        assert(before[j].key.view() == k);
                    }
                }
                if has_key(before, k) {
                    let j = choose|j: int| 0 <= j < before.len() && (#[trigger] before[j]).key.view() == k;
                    if j != i {
                        assert(after[j].key.view() == k);
                    } else {
                        assert(after[i].key.view() == k);
                    }
                }
                if k == rk {
                    assert(before[i].key.view() == rk);
                    assert(after[i].key.view() == k);
                }
            },
            None => {
                let p = choose|p: int|
                    0 <= p <= before.len() && after == before.insert(p, after[p]) && fresh(
                        after[p],
                        record,
                        observed_ms,
                    ) && (r matches Ok(a) && same_aggregate(a, after[p]));
                if has_key(after, k) {
                    let j = choose|j: int| 0 <= j < after.len() && (#[trigger] after[j]).key.view() == k;
                    if j < p {
                        assert(before[j].key.view() == k);
                    } else if j > p {
                        assert(before[j - 1].key.view() == k);
                    }
                }
                if has_key(before, k) {
                    let j = choose|j: int| 0 <= j < before.len() && (#[trigger] before[j]).key.view() == k;
                    if j < p {
                        assert(after[j].key.view() == k);
                    } else {
                        assert(after[j + 1].key.view() == k);
                    }
                }
                if k == rk {
                    assert(after[p].key.view() == k);
                }
            },
        }
    }
}

/// After a sequence of observations from a new aggregator (`states[0]` is
/// empty and each `states[i + 1]` is what `observe` made of `states[i]` with
/// `h[i]`, returning `results[i]`), the aggregator holds exactly one
/// aggregate per distinct key of an accepted finding, in strictly
/// increasing key order, each counted at least once and each found by a
/// lookup of its key; a key never accepted is not found.
pub proof fn lemma_aggregator_history(
    states: Seq<DetectionAggregator>,
    h: Seq<(DetectionRecord, u64)>,
    results: Seq<Result<AggregatedDetection, DetectorError>>,
)
    requires
        states.len() == h.len() + 1,
        results.len() == h.len(),
        states[0].entries@.len() == 0,
        forall|i: int| 0 <= i < states.len() ==> (#[trigger] states[i]).wf(),
        forall|i: int|
            0 <= i < h.len() ==> observed(
                (#[trigger] states[i]).entries@,
                states[i + 1].entries@,
                h[i].0,
                h[i].1,
                results[i],
            ),
    ensures
        ({
            let s = states.last().entries@;
            &&& forall|k: KeyView| has_key(s, k) <==> #[trigger] observed_keys(h).contains(k)
            &&& forall|k: KeyView| !observed_keys(h).contains(k) ==> #[trigger] key_index(s, k) is None
            &&& forall|k: KeyView| #[trigger] observed_keys(h).contains(k) ==> (key_index(s, k) matches Some(i)
                && s[i].key.view() == k)
            &&& s.len() == observed_keys(h).len()
            &&& keys_of(s).to_set() == observed_keys(h)
            &&& forall|i: int, j: int|
                0 <= i < j < s.len() ==> key_order((#[trigger] s[i]).key.view(), (#[trigger] s[j]).key.view()) < 0
            &&& forall|i: int| 0 <= i < s.len() ==> (#[trigger] s[i]).count >= 1
        }),
    decreases h.len(),
{
    let s = states.last().entries@;
    if h.len() == 0 {
        assert forall|k: KeyView| has_key(s, k) <==> #[trigger] observed_keys(h).contains(k) by {}
    } else {
        let n = (h.len() - 1) as int;
        lemma_aggregator_history(states.drop_last(), h.drop_last(), results.drop_last());
        assert(states.drop_last().last() == states[n]);
        assert forall|k: KeyView| has_key(s, k) <==> #[trigger] observed_keys(h).contains(k) by {
            assert(observed(states[n].entries@, states[n + 1].entries@, h[n].0, h[n].1, results[n]));
            lemma_observe_keys(states[n].entries@, s, h[n].0, h[n].1, results[n], k);
            assert(observed_keys(h.drop_last()).contains(k) <==> has_key(states[n].entries@, k));
        }
    }
    assert forall|k: KeyView| !observed_keys(h).contains(k) implies #[trigger] key_index(s, k) is None by {
        assert(!has_key(s, k));
    }
    assert forall|k: KeyView| #[trigger] observed_keys(h).contains(k) implies (key_index(s, k) matches Some(i)
        && s[i].key.view() == k) by {
        assert(has_key(s, k));
    }
    let ks = keys_of(s);
    assert(ks.to_set() =~= observed_keys(h)) by {
        assert forall|k: KeyView| ks.to_set().contains(k) <==> observed_keys(h).contains(k) by {
            if ks.contains(k) {
                let i = choose|i: int| 0 <= i < ks.len() && ks[i] == k;
                assert(s[i].key.view() == k);
            }
            if has_key(s, k) {
                let i = choose|i: int| 0 <= i < s.len() && (#[trigger] s[i]).key.view() == k;
                assert(ks[i] == k);
            }
        }
    }
    assert(ks.no_duplicates()) by {
        assert forall|i: int, j: int| 0 <= i < ks.len() && 0 <= j < ks.len() && i != j implies ks[i] != ks[j] by {
            if i < j {
                lemma_key_order(s[i].key.view(), s[j].key.view());
            } else {
                lemma_key_order(s[j].key.view(), s[i].key.view());
            }
        }
    }
    ks.lemma_no_dup_set_cardinality();
    lemma_aggregator_entries(states.last());
}

/// A lookup right after an accepted observation finds the aggregate that
/// the observation returned.
pub proof fn lemma_get_after_observe(
    before: DetectionAggregator,
    after: DetectionAggregator,
    record: DetectionRecord,
    observed_ms: u64,
    r: Result<AggregatedDetection, DetectorError>,
)
    requires
        after.wf(),
        observed(before.entries@, after.entries@, record, observed_ms, r),
        observed_ms != 0,
    ensures
        key_index(after.entries@, record_key(record)) matches Some(i) && (r matches Ok(a) && same_aggregate(
            a,
            after.entries@[i],
        )),
{
    let s = after.entries@;
    lemma_aggregator_entries(after);
    match key_index(before.entries@, record_key(record)) {
        Some(i) => {
            assert(s[i].key.view() == record_key(record));
            assert(key_index(s, s[i].key.view()) == Some(i));
        },
        None => {
            let p = choose|p: int|
                0 <= p <= before.entries@.len() && s == before.entries@.insert(p, s[p]) && fresh(
                    s[p],
                    record,
                    observed_ms,
                ) && (r matches Ok(a) && same_aggregate(a, s[p]));
            assert(key_index(s, s[p].key.view()) == Some(p));
        },
    }
}

} // verus!
