//! Observability primitives: one-shot service initialization, counters,
//! gauges and histograms over integer units, and Prometheus text exposition.
//!
//! Latencies and gauge readings are measured in micro-units (one millionth),
//! so a histogram bound of `10000` stands for `0.01` seconds.

use vstd::prelude::*;

use crate::strutil::{bytes_eq, dec_digits_of, dec_render, push_bytes};
use vstd::string::StringSliceAdditionalSpecFns;

verus! {

/// Why observability initialization failed.
#[derive(Debug, Clone, PartialEq, Eq)]
pub enum ObsInitError {
    /// A service name was already installed; the first init wins.
    AlreadyInitialized,
    /// Installing the subscriber failed (reported by the I/O layer).
    Install(String),
}

/// One-shot observability state: the installed service name.
#[derive(Debug, Clone, PartialEq, Eq)]
pub struct ObsInit {
    pub service: Option<String>,
}

impl ObsInit {
    /// Fresh, uninitialized state.
    pub fn new() -> (r: ObsInit)
        ensures
            r.service is None,
    {
        ObsInit { service: None }
    }

    /// Install the service name: the first call wins, any later call reports
    /// `AlreadyInitialized` and changes nothing.
    pub fn init(&mut self, service: &str) -> (r: Result<(), ObsInitError>)
        ensures
            old(self).service is None ==> (r is Ok && (final(self).service matches Some(s) && s@
                == service@)),
            old(self).service is Some ==> (r matches Err(e) && e is AlreadyInitialized
                && *final(self) == *old(self)),
    {
        if self.service.is_some() {
            return Err(ObsInitError::AlreadyInitialized);
        }
        self.service = Some(service.to_owned());
        Ok(())
    }

    /// The installed service name, if any.
    pub fn service_name(&self) -> (r: Option<&String>)
        ensures
            match r {
                Some(s) => self.service matches Some(inner) && s@ == inner@,
                None => self.service is None,
            },
    {
        match &self.service {
            Some(s) => Some(s),
            None => None,
        }
    }
}

/// The views of a label tuple.
pub open spec fn labels_view(a: Seq<String>) -> Seq<Seq<char>> {
    a.map_values(|s: String| s@)
}

fn label_tuple_eq(a: &Vec<String>, b: &Vec<String>) -> (r: bool)
    ensures
        r == (labels_view(a@) == labels_view(b@)),
{
    if a.len() != b.len() {
        assert(labels_view(a@).len() != labels_view(b@).len());
        return false;
    }
    let mut i: usize = 0;
    while i < a.len()
        invariant
            i <= a@.len(),
            a@.len() == b@.len(),
            forall|j: int| 0 <= j < i ==> #[trigger] labels_view(a@)[j] == labels_view(b@)[j],
        decreases a@.len() - i,
    {
        let r = bytes_eq(a[i].as_str().as_bytes(), b[i].as_str().as_bytes());
        proof {
            vstd::utf8::encode_utf8_decode_utf8(a@[i as int]@);
            vstd::utf8::encode_utf8_decode_utf8(b@[i as int]@);
        }
        if !r {
            assert(labels_view(a@)[i as int] != labels_view(b@)[i as int]);
            return false;
        }
        i = i + 1;
    }
    assert(labels_view(a@) =~= labels_view(b@));
    true
}

/// Copy a label tuple.
fn clone_labels(a: &Vec<String>) -> (r: Vec<String>)
    ensures
        labels_view(r@) == labels_view(a@),
        r@.len() == a@.len(),
        forall|j: int| 0 <= j < a@.len() ==> (#[trigger] r@[j])@ == a@[j]@,
{
    let mut out: Vec<String> = Vec::new();
    let mut i: usize = 0;
    while i < a.len()
        invariant
            i <= a@.len(),
            out@.len() == i,
            forall|j: int| 0 <= j < i ==> #[trigger] out@[j]@ == a@[j]@,
        decreases a@.len() - i,
    {
        out.push(a[i].clone());
        i = i + 1;
    }
    assert(labels_view(out@) =~= labels_view(a@));
    out
}

/// A family of monotonic counters, one per label tuple.
#[derive(Debug)]
pub struct CounterVec {
    pub name: String,
    pub help: String,
    pub label_names: Vec<String>,
    pub samples: Vec<(Vec<String>, u64)>,
}

/// The index of the sample with these labels, if present.
pub open spec fn spec_find_sample<T>(samples: Seq<(Vec<String>, T)>, labels: Seq<Seq<char>>, k: int) -> Option<
    int,
>
    decreases samples.len() - k,
{
    if k < 0 || k >= samples.len() {
        None
    } else if labels_view(samples[k].0@) == labels {
        Some(k)
    } else {
        spec_find_sample(samples, labels, k + 1)
    }
}

impl CounterVec {
    /// A new family with no samples.
    pub fn new(name: String, help: String, label_names: Vec<String>) -> (r: CounterVec)
        ensures
            r.name@ == name@,
            r.help@ == help@,
            r.label_names@ == label_names@,
            r.samples@.len() == 0,
    {
        CounterVec { name, help, label_names, samples: Vec::new() }
    }

    /// Add `amount` to the sample with these labels, creating it at zero
    /// first; the count saturates rather than wrap. The label tuple must
    /// match the family's label names in number.
    pub fn inc(&mut self, labels: &Vec<String>, amount: u64)
        requires
            labels@.len() == old(self).label_names@.len(),
        ensures
            final(self).name@ == old(self).name@,
            final(self).help@ == old(self).help@,
            final(self).label_names@ == old(self).label_names@,
            match spec_find_sample(old(self).samples@, labels_view(labels@), 0) {
                Some(k) => {
                    &&& final(self).samples@.len() == old(self).samples@.len()
                    &&& final(self).samples@[k].0 == old(self).samples@[k].0
                    &&& final(self).samples@[k].1 == (if old(self).samples@[k].1 + amount
                        <= u64::MAX {
                        old(self).samples@[k].1 + amount
                    } else {
                        u64::MAX as int
                    })
                    &&& forall|j: int| 0 <= j < old(self).samples@.len() && j != k ==> final(self).samples@[j] == old(self).samples@[j]
                },
                None => {
                    &&& final(self).samples@.len() == old(self).samples@.len() + 1
                    &&& final(self).samples@.last().1 == amount
                    &&& labels_view(final(self).samples@.last().0@) == labels_view(labels@)
                    &&& forall|j: int| 0 <= j < old(self).samples@.len() ==> final(self).samples@[j]
                        == old(self).samples@[j]
                },
            },
    {
        let ghost lv = labels_view(labels@);
        let mut i: usize = 0;
        while i < self.samples.len()
            invariant
                i <= self.samples@.len(),
                lv == labels_view(labels@),
                *self == *old(self),
                spec_find_sample(self.samples@, lv, 0) == spec_find_sample(
                    self.samples@,
                    lv,
                    i as int,
                ),
            decreases self.samples@.len() - i,
        {
            if label_tuple_eq(&self.samples[i].0, labels) {
                let current = self.samples[i].1;
                let next = if current <= u64::MAX - amount {
                    current + amount
                } else {
                    u64::MAX
                };
                self.samples[i].1 = next;
                return ;
            }
            i = i + 1;
        }
        self.samples.push((clone_labels(labels), amount));
    }

    /// Create the sample with these labels at zero if it is absent. The
    /// label tuple must match the family's label names in number.
    pub fn ensure(&mut self, labels: &Vec<String>)
        requires
            labels@.len() == old(self).label_names@.len(),
        ensures
            final(self).name@ == old(self).name@,
            final(self).help@ == old(self).help@,
            final(self).label_names@ == old(self).label_names@,
            match spec_find_sample(old(self).samples@, labels_view(labels@), 0) {
                Some(k) => *final(self) == *old(self),
                None => {
                    &&& final(self).samples@.len() == old(self).samples@.len() + 1
                    &&& final(self).samples@.last().1 == 0
                    &&& labels_view(final(self).samples@.last().0@) == labels_view(labels@)
                    &&& forall|j: int| 0 <= j < old(self).samples@.len() ==> final(self).samples@[j]
                        == old(self).samples@[j]
                },
            },
    {
        let ghost lv = labels_view(labels@);
        let mut i: usize = 0;
        while i < self.samples.len()
            invariant
                i <= self.samples@.len(),
                lv == labels_view(labels@),
                *self == *old(self),
                spec_find_sample(self.samples@, lv, 0) == spec_find_sample(
                    self.samples@,
                    lv,
                    i as int,
                ),
            decreases self.samples@.len() - i,
        {
            if label_tuple_eq(&self.samples[i].0, labels) {
                return ;
            }
            i = i + 1;
        }
        self.samples.push((clone_labels(labels), 0));
    }

    /// The value of the sample with these labels, zero when absent. The
    /// label tuple must match the family's label names in number.
    pub fn get(&self, labels: &Vec<String>) -> (r: u64)
        requires
            labels@.len() == self.label_names@.len(),
        ensures
            r == match spec_find_sample(self.samples@, labels_view(labels@), 0) {
                Some(k) => self.samples@[k].1,
                None => 0u64,
            },
    {
        let ghost lv = labels_view(labels@);
        let mut i: usize = 0;
        while i < self.samples.len()
            invariant
                i <= self.samples@.len(),
                lv == labels_view(labels@),
                spec_find_sample(self.samples@, lv, 0) == spec_find_sample(
                    self.samples@,
                    lv,
                    i as int,
                ),
            decreases self.samples@.len() - i,
        {
            if label_tuple_eq(&self.samples[i].0, labels) {
                return self.samples[i].1;
            }
            i = i + 1;
        }
        0
    }
}

/// A family of gauges over micro-units.
#[derive(Debug)]
pub struct GaugeVec {
    pub name: String,
    pub help: String,
    pub label_names: Vec<String>,
    pub samples: Vec<(Vec<String>, u64)>,
}

impl GaugeVec {
    /// A new family with no samples.
    pub fn new(name: String, help: String, label_names: Vec<String>) -> (r: GaugeVec)
        ensures
            r.name@ == name@,
            r.help@ == help@,
            r.label_names@ == label_names@,
            r.samples@.len() == 0,
    {
        GaugeVec { name, help, label_names, samples: Vec::new() }
    }

    /// Set the sample with these labels, creating it if absent. The label
    /// tuple must match the family's label names in number.
    pub fn set(&mut self, labels: &Vec<String>, value_micros: u64)
        requires
            labels@.len() == old(self).label_names@.len(),
        ensures
            final(self).name@ == old(self).name@,
            final(self).help@ == old(self).help@,
            final(self).label_names@ == old(self).label_names@,
            match spec_find_sample(old(self).samples@, labels_view(labels@), 0) {
                Some(k) => {
                    &&& final(self).samples@.len() == old(self).samples@.len()
                    &&& final(self).samples@[k].0 == old(self).samples@[k].0
                    &&& final(self).samples@[k].1 == value_micros
                    &&& forall|j: int| 0 <= j < old(self).samples@.len() && j != k ==> final(self).samples@[j] == old(self).samples@[j]
                },
                None => {
                    &&& final(self).samples@.len() == old(self).samples@.len() + 1
                    &&& final(self).samples@.last().1 == value_micros
                    &&& labels_view(final(self).samples@.last().0@) == labels_view(labels@)
                    &&& forall|j: int| 0 <= j < old(self).samples@.len() ==> final(self).samples@[j]
                        == old(self).samples@[j]
                },
            },
    {
        let ghost lv = labels_view(labels@);
        let mut i: usize = 0;
        while i < self.samples.len()
            invariant
                i <= self.samples@.len(),
                lv == labels_view(labels@),
                *self == *old(self),
                spec_find_sample(self.samples@, lv, 0) == spec_find_sample(
                    self.samples@,
                    lv,
                    i as int,
                ),
            decreases self.samples@.len() - i,
        {
            if label_tuple_eq(&self.samples[i].0, labels) {
                self.samples[i].1 = value_micros;
                return ;
            }
            i = i + 1;
        }
        self.samples.push((clone_labels(labels), value_micros));
    }

    /// Create the sample with these labels at zero if it is absent. The
    /// label tuple must match the family's label names in number.
    pub fn ensure(&mut self, labels: &Vec<String>)
        requires
            labels@.len() == old(self).label_names@.len(),
        ensures
            final(self).name@ == old(self).name@,
            final(self).help@ == old(self).help@,
            final(self).label_names@ == old(self).label_names@,
            match spec_find_sample(old(self).samples@, labels_view(labels@), 0) {
                Some(k) => *final(self) == *old(self),
                None => {
                    &&& final(self).samples@.len() == old(self).samples@.len() + 1
                    &&& final(self).samples@.last().1 == 0
                    &&& labels_view(final(self).samples@.last().0@) == labels_view(labels@)
                    &&& forall|j: int| 0 <= j < old(self).samples@.len() ==> final(self).samples@[j]
                        == old(self).samples@[j]
                },
            },
    {
        let ghost lv = labels_view(labels@);
        let mut i: usize = 0;
        while i < self.samples.len()
            invariant
                i <= self.samples@.len(),
                lv == labels_view(labels@),
                *self == *old(self),
                spec_find_sample(self.samples@, lv, 0) == spec_find_sample(
                    self.samples@,
                    lv,
                    i as int,
                ),
            decreases self.samples@.len() - i,
        {
            if label_tuple_eq(&self.samples[i].0, labels) {
                return ;
            }
            i = i + 1;
        }
        self.samples.push((clone_labels(labels), 0));
    }
}

/// One histogram's data: per-bucket counts (the last is the overflow
/// bucket), the saturating sum of observations, and the total count.
#[derive(Debug)]
pub struct HistogramData {
    pub counts: Vec<u64>,
    pub sum: u64,
    pub count: u64,
}

/// The sum of the first `i` bucket counts.
pub open spec fn spec_counts_sum(counts: Seq<u64>, i: int) -> int
    decreases i,
{
    if i <= 0 {
        0
    } else {
        spec_counts_sum(counts, i - 1) + counts[i - 1]
    }
}

impl HistogramData {
    /// Histogram well-formedness: one overflow bucket beyond the bounds, and
    /// the bucket counts sum to the total count.
    pub open spec fn wf(self, bounds_len: nat) -> bool {
        &&& self.counts@.len() == bounds_len + 1
        &&& spec_counts_sum(self.counts@, self.counts@.len() as int) == self.count
        &&& self.count <= u64::MAX
    }
}

/// Prefix sums grow with each element added.
proof fn lemma_counts_sum_update(counts: Seq<u64>, idx: int, v: u64, i: int)
    requires
        0 <= idx < counts.len(),
        i <= counts.len(),
    ensures
        spec_counts_sum(counts.update(idx, v), i) == spec_counts_sum(counts, i) + (if idx < i {
            v - counts[idx]
        } else {
            0
        }),
    decreases i,
{
    if i > 0 {
        lemma_counts_sum_update(counts, idx, v, i - 1);
    }
}

/// Each bucket count is at most the sum of all counts.
proof fn lemma_count_le_sum(counts: Seq<u64>, idx: int, i: int)
    requires
        0 <= idx < i <= counts.len(),
    ensures
        counts[idx] <= spec_counts_sum(counts, i),
        spec_counts_sum(counts, i) >= 0,
    decreases i,
{
    lemma_counts_sum_nonneg(counts, i);
    if idx < i - 1 {
        lemma_count_le_sum(counts, idx, i - 1);
    } else {
        lemma_counts_sum_nonneg(counts, i - 1);
    }
}

/// Prefix sums of bucket counts are nonnegative.
proof fn lemma_counts_sum_nonneg(counts: Seq<u64>, i: int)
    ensures
        spec_counts_sum(counts, i) >= 0,
    decreases i,
{
    if i > 0 {
        lemma_counts_sum_nonneg(counts, i - 1);
    }
}

/// An all-zero prefix sums to zero.
proof fn lemma_counts_sum_zero(counts: Seq<u64>, i: int)
    requires
        forall|j: int| 0 <= j < i ==> #[trigger] counts[j] == 0,
    ensures
        spec_counts_sum(counts, i) == 0,
    decreases i,
{
    if i > 0 {
        lemma_counts_sum_zero(counts, i - 1);
    }
}

/// The bucket an observation falls into.
fn find_bucket(bounds: &Vec<u64>, value: u64) -> (r: usize)
    ensures
        r as int == spec_bucket_index(bounds@, value, 0),
        r <= bounds@.len(),
{
    let mut i: usize = 0;
    while i < bounds.len()
        invariant
            i <= bounds@.len(),
            spec_bucket_index(bounds@, value, 0) == spec_bucket_index(bounds@, value, i as int),
        decreases bounds@.len() - i,
    {
        if value <= bounds[i] {
            return i;
        }
        i = i + 1;
    }
    bounds.len()
}

/// Histogram monotonicity: cumulative bucket counts are nondecreasing in the
/// bucket index, and the cumulative count through the overflow (`+Inf`)
/// bucket equals the histogram's total observation count.
pub proof fn lemma_histogram_monotone(h: HistogramData, bounds_len: nat, i: int, j: int)
    requires
        h.wf(bounds_len),
        0 <= i <= j <= h.counts@.len(),
    ensures
        spec_counts_sum(h.counts@, i) <= spec_counts_sum(h.counts@, j),
        spec_counts_sum(h.counts@, h.counts@.len() as int) == h.count,
    decreases j - i,
{
    if i < j {
        lemma_histogram_monotone(h, bounds_len, i + 1, j);
    }
}

/// The bucket an observation falls into: the first bound at or above it, or
/// the overflow bucket.
pub open spec fn spec_bucket_index(bounds: Seq<u64>, value: u64, k: int) -> int
    decreases bounds.len() - k,
{
    if k < 0 || k >= bounds.len() {
        bounds.len() as int
    } else if value <= bounds[k] {
        k
    } else {
        spec_bucket_index(bounds, value, k + 1)
    }
}

proof fn lemma_bucket_index_range(bounds: Seq<u64>, value: u64, k: int)
    requires
        0 <= k <= bounds.len(),
    ensures
        k <= spec_bucket_index(bounds, value, k) <= bounds.len(),
    decreases bounds.len() - k,
{
    if k < bounds.len() && value > bounds[k] {
        lemma_bucket_index_range(bounds, value, k + 1);
    }
}

impl HistogramData {
    /// A zeroed histogram for the given bounds.
    pub fn empty(bounds_len: usize) -> (r: HistogramData)
        requires
            bounds_len < usize::MAX,
        ensures
            r.wf(bounds_len as nat),
            r.count == 0,
            r.sum == 0,
            forall|i: int| 0 <= i < r.counts@.len() ==> #[trigger] r.counts@[i] == 0,
    {
        let mut counts: Vec<u64> = Vec::new();
        let mut i: usize = 0;
        while i < bounds_len + 1
            invariant
                bounds_len < usize::MAX,
                i <= bounds_len + 1,
                counts@.len() == i,
                forall|j: int| 0 <= j < i ==> #[trigger] counts@[j] == 0,
            decreases bounds_len + 1 - i,
        {
            counts.push(0);
            i = i + 1;
        }
        proof {
            lemma_counts_sum_zero(counts@, counts@.len() as int);
        }
        HistogramData { counts, sum: 0, count: 0 }
    }

    /// Record one observation: its bucket, the saturating sum, and the total
    /// count all advance; a histogram that has reached the maximum count
    /// stays unchanged.
    pub fn observe(&mut self, bounds: &Vec<u64>, value: u64)
        requires
            old(self).wf(bounds@.len()),
        ensures
            final(self).wf(bounds@.len()),
            old(self).count < u64::MAX ==> {
                &&& final(self).count == old(self).count + 1
                &&& final(self).sum == (if old(self).sum + value <= u64::MAX {
                    old(self).sum + value
                } else {
                    u64::MAX as int
                })
                &&& final(self).counts@ == old(self).counts@.update(
                    spec_bucket_index(bounds@, value, 0),
                    (old(self).counts@[spec_bucket_index(bounds@, value, 0)] + 1) as u64,
                )
            },
            old(self).count == u64::MAX ==> *final(self) == *old(self),
    {
        if self.count == u64::MAX {
            return ;
        }
        let idx = find_bucket(bounds, value);
        proof {
            lemma_bucket_index_range(bounds@, value, 0);
            lemma_count_le_sum(self.counts@, idx as int, self.counts@.len() as int);
        }
        let bumped = self.counts[idx] + 1;
        self.counts[idx] = bumped;
        proof {
            lemma_counts_sum_update(
                old(self).counts@,
                idx as int,
                bumped,
                old(self).counts@.len() as int,
            );
        }
        self.count = self.count + 1;
        self.sum = if self.sum <= u64::MAX - value {
            self.sum + value
        } else {
            u64::MAX
        };
    }
}

/// A family of histograms over micro-units, with fixed bucket bounds.
#[derive(Debug)]
pub struct HistogramVec {
    pub name: String,
    pub help: String,
    pub label_names: Vec<String>,
    pub bounds: Vec<u64>,
    pub samples: Vec<(Vec<String>, HistogramData)>,
}

impl HistogramVec {
    /// Family well-formedness: every sample fits the bounds.
    pub open spec fn wf(self) -> bool {
        &&& self.bounds@.len() < usize::MAX
        &&& forall|i: int| 0 <= i < self.samples@.len() ==> (#[trigger] self.samples@[i]).1.wf(
            self.bounds@.len(),
        )
    }

    /// A new family with no samples.
    pub fn new(name: String, help: String, label_names: Vec<String>, bounds: Vec<u64>) -> (r:
        HistogramVec)
        requires
            bounds@.len() < usize::MAX,
        ensures
            r.wf(),
            r.name@ == name@,
            r.help@ == help@,
            r.label_names@ == label_names@,
            r.samples@.len() == 0,
            r.bounds@ == bounds@,
    {
        HistogramVec { name, help, label_names, bounds, samples: Vec::new() }
    }

    /// Record one observation under these labels, creating the sample first
    /// when absent: the sample's data advances as one observation does, and
    /// every other sample is untouched. The label tuple must match the
    /// family's label names in number.
    pub fn observe(&mut self, labels: &Vec<String>, value_micros: u64)
        requires
            old(self).wf(),
            labels@.len() == old(self).label_names@.len(),
        ensures
            final(self).wf(),
            final(self).name@ == old(self).name@,
            final(self).help@ == old(self).help@,
            final(self).label_names@ == old(self).label_names@,
            final(self).bounds@ == old(self).bounds@,
            match spec_find_sample(old(self).samples@, labels_view(labels@), 0) {
                Some(k) => {
                    &&& final(self).samples@.len() == old(self).samples@.len()
                    &&& final(self).samples@[k].0 == old(self).samples@[k].0
                    &&& forall|j: int| 0 <= j < old(self).samples@.len() && j != k ==> final(self).samples@[j] == old(self).samples@[j]
                    &&& (old(self).samples@[k].1.count < u64::MAX ==> {
                        let d = old(self).samples@[k].1;
                        &&& final(self).samples@[k].1.count == d.count + 1
                        &&& final(self).samples@[k].1.sum == (if d.sum + value_micros
                            <= u64::MAX {
                            d.sum + value_micros
                        } else {
                            u64::MAX as int
                        })
                        &&& final(self).samples@[k].1.counts@ == d.counts@.update(
                            spec_bucket_index(old(self).bounds@, value_micros, 0),
                            (d.counts@[spec_bucket_index(old(self).bounds@, value_micros, 0)]
                                + 1) as u64,
                        )
                    })
                    &&& (old(self).samples@[k].1.count == u64::MAX ==> final(self).samples@[k].1
                        == old(self).samples@[k].1)
                },
                None => {
                    &&& final(self).samples@.len() == old(self).samples@.len() + 1
                    &&& forall|j: int| 0 <= j < old(self).samples@.len() ==> final(self).samples@[j]
                        == old(self).samples@[j]
                    &&& labels_view(final(self).samples@.last().0@) == labels_view(labels@)
                    &&& final(self).samples@.last().1.count == 1
                    &&& final(self).samples@.last().1.sum == value_micros
                    &&& final(self).samples@.last().1.counts@.len() == old(self).bounds@.len() + 1
                    &&& forall|b: int| 0 <= b < final(self).samples@.last().1.counts@.len() ==> (
                        #[trigger] final(self).samples@.last().1.counts@[b]) == (if b
                        == spec_bucket_index(old(self).bounds@, value_micros, 0) {
                        1u64
                    } else {
                        0u64
                    })
                },
            },
    {
        let ghost lv = labels_view(labels@);
        let mut i: usize = 0;
        while i < self.samples.len()
            invariant
                i <= self.samples@.len(),
                lv == labels_view(labels@),
                self.wf(),
                self.bounds@ == old(self).bounds@,
                self.name@ == old(self).name@,
                *self == *old(self),
                spec_find_sample(self.samples@, lv, 0) == spec_find_sample(
                    self.samples@,
                    lv,
                    i as int,
                ),
            decreases self.samples@.len() - i,
        {
            if label_tuple_eq(&self.samples[i].0, labels) {
                proof {
                    assert(spec_find_sample(old(self).samples@, lv, 0) == Some(i as int));
                }
                let bounds_len = self.bounds.len();
                let sample = &mut self.samples[i].1;
                proof {
                    assert(old(self).samples@[i as int].1.wf(old(self).bounds@.len()));
                }
                sample.observe(&self.bounds, value_micros);
                proof {
                    let idx = spec_bucket_index(old(self).bounds@, value_micros, 0);
                    let d = old(self).samples@[i as int].1;
                    if d.count < u64::MAX {
                        assert(self.samples@[i as int].1.counts@ == d.counts@.update(
                            idx,
                            (d.counts@[idx] + 1) as u64,
                        ));
                    }
                }
                return ;
            }
            i = i + 1;
        }
        let mut data = HistogramData::empty(self.bounds.len());
        data.observe(&self.bounds, value_micros);
        proof {
            lemma_bucket_index_range(self.bounds@, value_micros, 0);
            let idx = spec_bucket_index(self.bounds@, value_micros, 0);
            assert forall|b: int| 0 <= b < data.counts@.len() implies (#[trigger] data.counts@[b])
                == (if b == idx {
                1u64
            } else {
                0u64
            }) by {}
        }
        self.samples.push((clone_labels(labels), data));
    }

    /// Create the sample with these labels, zeroed, if it is absent. The
    /// label tuple must match the family's label names in number.
    pub fn ensure(&mut self, labels: &Vec<String>)
        requires
            old(self).wf(),
            labels@.len() == old(self).label_names@.len(),
        ensures
            final(self).wf(),
            final(self).name@ == old(self).name@,
            final(self).help@ == old(self).help@,
            final(self).label_names@ == old(self).label_names@,
            final(self).bounds@ == old(self).bounds@,
            match spec_find_sample(old(self).samples@, labels_view(labels@), 0) {
                Some(k) => *final(self) == *old(self),
                None => {
                    &&& final(self).samples@.len() == old(self).samples@.len() + 1
                    &&& forall|j: int| 0 <= j < old(self).samples@.len() ==> final(self).samples@[j]
                        == old(self).samples@[j]
                    &&& labels_view(final(self).samples@.last().0@) == labels_view(labels@)
                    &&& final(self).samples@.last().1.count == 0
                    &&& final(self).samples@.last().1.sum == 0
                    &&& final(self).samples@.last().1.counts@.len() == old(self).bounds@.len() + 1
                    &&& forall|b: int| 0 <= b < final(self).samples@.last().1.counts@.len() ==> (
                        #[trigger] final(self).samples@.last().1.counts@[b]) == 0
                },
            },
    {
        let ghost lv = labels_view(labels@);
        let mut i: usize = 0;
        while i < self.samples.len()
            invariant
                i <= self.samples@.len(),
                lv == labels_view(labels@),
                self.wf(),
                *self == *old(self),
                spec_find_sample(self.samples@, lv, 0) == spec_find_sample(
                    self.samples@,
                    lv,
                    i as int,
                ),
            decreases self.samples@.len() - i,
        {
            if label_tuple_eq(&self.samples[i].0, labels) {
                return ;
            }
            i = i + 1;
        }
        let data = HistogramData::empty(self.bounds.len());
        self.samples.push((clone_labels(labels), data));
    }
}

/// Escaping of one byte inside a label value: backslash, quote and newline.
pub open spec fn prom_escaped_byte(b: u8) -> Seq<u8> {
    if b == 92 {
        seq![92u8, 92u8]
    } else if b == 34 {
        seq![92u8, 34u8]
    } else if b == 10 {
        seq![92u8, 110u8]
    } else {
        seq![b]
    }
}

/// Escaping of a label value.
pub open spec fn prom_escape(s: Seq<u8>) -> Seq<u8>
    decreases s.len(),
{
    if s.len() == 0 {
        Seq::empty()
    } else {
        prom_escaped_byte(s[0]) + prom_escape(s.skip(1))
    }
}

/// Append the escaped label value.
fn push_prom_escaped(out: &mut Vec<u8>, s: &[u8], from: usize)
    requires
        from <= s@.len(),
    ensures
        final(out)@ == old(out)@ + prom_escape(s@.skip(from as int)),
    decreases s@.len() - from,
{
    if from == s.len() {
        assert(s@.skip(from as int) =~= Seq::<u8>::empty());
        assert(out@ =~= out@ + prom_escape(s@.skip(from as int)));
        return ;
    }
    let b = s[from];
    if b == 92 {
        out.push(92);
        out.push(92);
    } else if b == 34 {
        out.push(92);
        out.push(34);
    } else if b == 10 {
        out.push(92);
        out.push(110);
    } else {
        out.push(b);
    }
    let ghost mid = out@;
    push_prom_escaped(out, s, from + 1);
    proof {
        assert(s@.skip(from as int)[0] == s@[from as int]);
        assert(s@.skip(from as int).skip(1) =~= s@.skip(from as int + 1));
        assert(mid =~= old(out)@ + prom_escaped_byte(s@[from as int]));
        assert(out@ =~= old(out)@ + prom_escape(s@.skip(from as int)));
    }
}

/// Six zero-padded decimal digits of a fraction below one million.
pub open spec fn pad6(frac: nat) -> Seq<u8> {
    seq![
        (48 + (frac / 100000) % 10) as u8,
        (48 + (frac / 10000) % 10) as u8,
        (48 + (frac / 1000) % 10) as u8,
        (48 + (frac / 100) % 10) as u8,
        (48 + (frac / 10) % 10) as u8,
        (48 + frac % 10) as u8,
    ]
}

/// Trailing zeros removed, at least one digit kept.
pub open spec fn trim_zeros(s: Seq<u8>) -> Seq<u8>
    decreases s.len(),
{
    if s.len() <= 1 {
        s
    } else if s.last() == 48 {
        trim_zeros(s.drop_last())
    } else {
        s
    }
}

/// The rendering of a micro-unit value: integer part, a dot, and the
/// fraction with trailing zeros trimmed.
pub open spec fn scaled_digits(v: nat) -> Seq<u8> {
    dec_digits_of(v / 1000000) + seq![46u8] + trim_zeros(pad6(v % 1000000))
}

/// Append the rendering of a micro-unit value.
fn push_scaled(out: &mut Vec<u8>, v: u64)
    ensures
        final(out)@ == old(out)@ + scaled_digits(v as nat),
{
    let whole = dec_render(v / 1000000);
    push_bytes(out, whole.as_slice());
    out.push(46);
    let frac = v % 1000000;
    let mut digits: Vec<u8> = Vec::new();
    digits.push(48 + (((frac / 100000) % 10) as u8));
    digits.push(48 + (((frac / 10000) % 10) as u8));
    digits.push(48 + (((frac / 1000) % 10) as u8));
    digits.push(48 + (((frac / 100) % 10) as u8));
    digits.push(48 + (((frac / 10) % 10) as u8));
    digits.push(48 + ((frac % 10) as u8));
    assert(digits@ =~= pad6(frac as nat));
    while digits.len() > 1 && digits[digits.len() - 1] == 48
        invariant
            digits@.len() >= 1,
            trim_zeros(pad6(frac as nat)) == trim_zeros(digits@),
        decreases digits@.len(),
    {
        let ghost before = digits@;
        let _ = digits.pop();
        assert(digits@ =~= before.drop_last());
    }
    push_bytes(out, digits.as_slice());
    assert(out@ =~= old(out)@ + scaled_digits(v as nat));
}

/// The rendered label pairs from index `i` on, comma separated.
pub open spec fn spec_label_pairs(
    names: Seq<Seq<u8>>,
    values: Seq<Seq<u8>>,
    i: int,
) -> Seq<u8>
    decreases names.len() - i,
{
    if i < 0 || i >= names.len() || i >= values.len() {
        Seq::empty()
    } else {
        let pair = names[i] + seq![61u8, 34u8] + prom_escape(values[i]) + seq![34u8];
        if i + 1 >= names.len() || i + 1 >= values.len() {
            pair
        } else {
            pair + seq![44u8] + spec_label_pairs(names, values, i + 1)
        }
    }
}

/// The rendered label block: empty without label names, else braces around
/// the pairs.
pub open spec fn spec_label_block(names: Seq<Seq<u8>>, values: Seq<Seq<u8>>) -> Seq<u8> {
    if names.len() == 0 {
        Seq::empty()
    } else {
        seq![123u8] + spec_label_pairs(names, values, 0) + seq![125u8]
    }
}

/// The byte strings of a label tuple.
pub open spec fn labels_bytes(a: Seq<String>) -> Seq<Seq<u8>> {
    a.map_values(|s: String| vstd::utf8::encode_utf8(s@))
}

/// Whether `a` precedes or equals `b` in lexicographic byte order.
pub open spec fn bytes_le(a: Seq<u8>, b: Seq<u8>) -> bool
    decreases a.len(),
{
    if a.len() == 0 {
        true
    } else if b.len() == 0 {
        false
    } else if a[0] != b[0] {
        a[0] < b[0]
    } else {
        bytes_le(a.skip(1), b.skip(1))
    }
}

/// Whether label tuple `a` precedes or equals `b`: label by label, each
/// compared by its bytes, a shorter tuple before its extensions.
pub open spec fn tuple_le(a: Seq<Seq<u8>>, b: Seq<Seq<u8>>) -> bool
    decreases a.len(),
{
    if a.len() == 0 {
        true
    } else if b.len() == 0 {
        false
    } else if a[0] != b[0] {
        bytes_le(a[0], b[0])
    } else {
        tuple_le(a.skip(1), b.skip(1))
    }
}

/// A sample model inserted before the first entry whose label tuple it
/// precedes or equals.
pub open spec fn spec_insert_sorted<T>(
    s: Seq<(Seq<Seq<u8>>, T)>,
    x: (Seq<Seq<u8>>, T),
) -> Seq<(Seq<Seq<u8>>, T)>
    decreases s.len(),
{
    if s.len() == 0 {
        seq![x]
    } else if tuple_le(x.0, s[0].0) {
        seq![x] + s
    } else {
        seq![s[0]] + spec_insert_sorted(s.skip(1), x)
    }
}

/// The sample models ordered by label tuple: each sample inserted, in turn,
/// into the sorted order of those before it.
pub open spec fn spec_sort_model<T>(s: Seq<(Seq<Seq<u8>>, T)>) -> Seq<(Seq<Seq<u8>>, T)>
    decreases s.len(),
{
    if s.len() == 0 {
        Seq::empty()
    } else {
        spec_insert_sorted(spec_sort_model(s.drop_last()), s.last())
    }
}

/// The byte-level model of a counter or gauge family's samples.
pub open spec fn samples_model(s: Seq<(Vec<String>, u64)>) -> Seq<(Seq<Seq<u8>>, u64)> {
    s.map_values(|p: (Vec<String>, u64)| (labels_bytes(p.0@), p.1))
}

/// The byte-level model of a histogram family's samples: each label tuple
/// with the sample's bucket counts, sum and count.
pub open spec fn hist_samples_model(s: Seq<(Vec<String>, HistogramData)>) -> Seq<
    (Seq<Seq<u8>>, (Seq<u64>, u64, u64)),
> {
    s.map_values(
        |p: (Vec<String>, HistogramData)| (labels_bytes(p.0@), (p.1.counts@, p.1.sum, p.1.count)),
    )
}

/// Inserting at the position the comparisons pick splits the sequence there.
proof fn lemma_insert_sorted_split<T>(s: Seq<(Seq<Seq<u8>>, T)>, x: (Seq<Seq<u8>>, T), j: int)
    requires
        0 <= j <= s.len(),
        forall|k: int| 0 <= k < j ==> !tuple_le(x.0, (#[trigger] s[k]).0),
        j < s.len() ==> tuple_le(x.0, s[j].0),
    ensures
        spec_insert_sorted(s, x) == s.take(j) + seq![x] + s.skip(j),
    decreases j,
{
    if j == 0 {
        assert(spec_insert_sorted(s, x) =~= s.take(0) + seq![x] + s.skip(0));
    } else {
        assert(!tuple_le(x.0, s[0].0));
        assert forall|k: int| 0 <= k < j - 1 implies !tuple_le(x.0, (#[trigger] s.skip(1)[k]).0) by {
            assert(s.skip(1)[k] == s[k + 1]);
        }
        if j - 1 < s.skip(1).len() {
            assert(s.skip(1)[j - 1] == s[j]);
        }
        lemma_insert_sorted_split(s.skip(1), x, j - 1);
        let sub = spec_insert_sorted(s.skip(1), x);
        assert(spec_insert_sorted(s, x) == seq![s[0]] + sub);
        assert(sub == s.skip(1).take(j - 1) + seq![x] + s.skip(1).skip(j - 1));
        assert(seq![s[0]] + sub =~= s.take(j) + seq![x] + s.skip(j));
    }
}

/// Whether `a`'s bytes precede or equal `b`'s, lexicographically.
fn bytes_le_exec(a: &[u8], b: &[u8]) -> (r: bool)
    ensures
        r == bytes_le(a@, b@),
{
    proof {
        assert(a@.skip(0) =~= a@);
        assert(b@.skip(0) =~= b@);
    }
    let mut i: usize = 0;
    while i < a.len() && i < b.len()
        invariant
            i <= a@.len(),
            i <= b@.len(),
            bytes_le(a@, b@) == bytes_le(a@.skip(i as int), b@.skip(i as int)),
        decreases a@.len() - i,
    {
        proof {
            assert(a@.skip(i as int)[0] == a@[i as int]);
            assert(b@.skip(i as int)[0] == b@[i as int]);
            assert(a@.skip(i as int).skip(1) =~= a@.skip(i as int + 1));
            assert(b@.skip(i as int).skip(1) =~= b@.skip(i as int + 1));
        }
        if a[i] != b[i] {
            return a[i] < b[i];
        }
        i = i + 1;
    }
    if i == a.len() {
        assert(a@.skip(i as int).len() == 0);
        true
    } else {
        assert(b@.skip(i as int).len() == 0);
        assert(a@.skip(i as int).len() > 0);
        false
    }
}

/// Whether `a`'s label tuple precedes or equals `b`'s.
fn labels_le(a: &Vec<String>, b: &Vec<String>) -> (r: bool)
    ensures
        r == tuple_le(labels_bytes(a@), labels_bytes(b@)),
{
    let ghost av = labels_bytes(a@);
    let ghost bv = labels_bytes(b@);
    proof {
        assert(av.skip(0) =~= av);
        assert(bv.skip(0) =~= bv);
    }
    let mut i: usize = 0;
    while i < a.len() && i < b.len()
        invariant
            i <= a@.len(),
            i <= b@.len(),
            av == labels_bytes(a@),
            bv == labels_bytes(b@),
            tuple_le(av, bv) == tuple_le(av.skip(i as int), bv.skip(i as int)),
        decreases a@.len() - i,
    {
        proof {
            assert(av.skip(i as int)[0] == av[i as int]);
            assert(bv.skip(i as int)[0] == bv[i as int]);
            assert(av.skip(i as int).skip(1) =~= av.skip(i as int + 1));
            assert(bv.skip(i as int).skip(1) =~= bv.skip(i as int + 1));
        }
        let abytes = a[i].as_str().as_bytes();
        let bbytes = b[i].as_str().as_bytes();
        if !crate::strutil::bytes_eq(abytes, bbytes) {
            return bytes_le_exec(abytes, bbytes);
        }
        i = i + 1;
    }
    if i == a.len() {
        assert(av.skip(i as int).len() == 0);
        true
    } else {
        assert(bv.skip(i as int).len() == 0);
        assert(av.skip(i as int).len() > 0);
        false
    }
}

/// Insert a sample into a label-sorted counter or gauge sample vector.
fn insert_sample_u64(r: &mut Vec<(Vec<String>, u64)>, labels: Vec<String>, v: u64)
    ensures
        samples_model(final(r)@) == spec_insert_sorted(
            samples_model(old(r)@),
            (labels_bytes(labels@), v),
        ),
{
    let ghost m0 = samples_model(old(r)@);
    let ghost xm = (labels_bytes(labels@), v);
    let mut j: usize = 0;
    while j < r.len() && !labels_le(&labels, &r[j].0)
        invariant
            j <= r@.len(),
            *r == *old(r),
            m0 == samples_model(r@),
            xm == (labels_bytes(labels@), v),
            forall|k: int| 0 <= k < j ==> !tuple_le(xm.0, (#[trigger] m0[k]).0),
        decreases r@.len() - j,
    {
        proof {
            assert(m0[j as int].0 == labels_bytes(r@[j as int].0@));
        }
        j = j + 1;
    }
    proof {
        if (j as int) < m0.len() {
            assert(m0[j as int].0 == labels_bytes(r@[j as int].0@));
        }
        lemma_insert_sorted_split(m0, xm, j as int);
    }
    r.insert(j, (labels, v));
    proof {
        assert forall|q: int| 0 <= q < samples_model(r@).len() implies samples_model(r@)[q] == (
        m0.take(j as int) + seq![xm] + m0.skip(j as int))[q] by {
            if q < j as int {
                assert(r@[q] == old(r)@[q]);
            } else if q == j as int {
            } else {
                assert(r@[q] == old(r)@[q - 1]);
            }
        }
        assert(samples_model(r@) =~= m0.take(j as int) + seq![xm] + m0.skip(j as int));
    }
}

/// A copy of a counter or gauge family's samples, ordered by label tuple.
fn sort_samples_u64(s: &Vec<(Vec<String>, u64)>) -> (r: Vec<(Vec<String>, u64)>)
    ensures
        samples_model(r@) == spec_sort_model(samples_model(s@)),
{
    let mut r: Vec<(Vec<String>, u64)> = Vec::new();
    proof {
        assert(samples_model(s@.take(0)) =~= Seq::<(Seq<Seq<u8>>, u64)>::empty());
        assert(samples_model(r@) =~= spec_sort_model(samples_model(s@.take(0))));
    }
    let mut i: usize = 0;
    while i < s.len()
        invariant
            i <= s@.len(),
            samples_model(r@) == spec_sort_model(samples_model(s@.take(i as int))),
        decreases s@.len() - i,
    {
        let labels = clone_labels(&s[i].0);
        let ghost mprev = samples_model(s@.take(i as int));
        insert_sample_u64(&mut r, labels, s[i].1);
        proof {
            assert forall|k: int| 0 <= k < labels_bytes(labels@).len() implies labels_bytes(
                labels@,
            )[k] == labels_bytes(s@[i as int].0@)[k] by {
                assert(labels_view(labels@)[k] == labels_view(s@[i as int].0@)[k]);
            }
            assert(labels_bytes(labels@) =~= labels_bytes(s@[i as int].0@));
            assert(samples_model(s@.take(i as int + 1)).drop_last() =~= mprev);
            assert(samples_model(s@.take(i as int + 1)).last() == (
                labels_bytes(s@[i as int].0@),
                s@[i as int].1,
            ));
        }
        i = i + 1;
    }
    proof {
        assert(s@.take(s@.len() as int) =~= s@);
    }
    r
}

/// A copy of one histogram sample's data.
fn dup_histogram_data(d: &HistogramData) -> (r: HistogramData)
    ensures
        r.counts@ == d.counts@,
        r.sum == d.sum,
        r.count == d.count,
{
    let mut counts: Vec<u64> = Vec::new();
    let mut i: usize = 0;
    while i < d.counts.len()
        invariant
            i <= d.counts@.len(),
            counts@ == d.counts@.take(i as int),
        decreases d.counts@.len() - i,
    {
        counts.push(d.counts[i]);
        proof {
            assert(d.counts@.take(i as int + 1) =~= d.counts@.take(i as int).push(
                d.counts@[i as int],
            ));
        }
        i = i + 1;
    }
    proof {
        assert(d.counts@.take(d.counts@.len() as int) =~= d.counts@);
    }
    HistogramData { counts, sum: d.sum, count: d.count }
}

/// Insert a sample into a label-sorted histogram sample vector.
fn insert_sample_hist(r: &mut Vec<(Vec<String>, HistogramData)>, labels: Vec<String>, d: HistogramData)
    ensures
        hist_samples_model(final(r)@) == spec_insert_sorted(
            hist_samples_model(old(r)@),
            (labels_bytes(labels@), (d.counts@, d.sum, d.count)),
        ),
        forall|q: int| 0 <= q < final(r)@.len() ==> (#[trigger] final(r)@[q]).1 == d || exists|k: int|
            0 <= k < old(r)@.len() && final(r)@[q].1 == old(r)@[k].1,
{
    let ghost m0 = hist_samples_model(old(r)@);
    let ghost xm = (labels_bytes(labels@), (d.counts@, d.sum, d.count));
    let mut j: usize = 0;
    while j < r.len() && !labels_le(&labels, &r[j].0)
        invariant
            j <= r@.len(),
            *r == *old(r),
            m0 == hist_samples_model(r@),
            xm == (labels_bytes(labels@), (d.counts@, d.sum, d.count)),
            forall|k: int| 0 <= k < j ==> !tuple_le(xm.0, (#[trigger] m0[k]).0),
        decreases r@.len() - j,
    {
        proof {
            assert(m0[j as int].0 == labels_bytes(r@[j as int].0@));
        }
        j = j + 1;
    }
    proof {
        if (j as int) < m0.len() {
            assert(m0[j as int].0 == labels_bytes(r@[j as int].0@));
        }
        lemma_insert_sorted_split(m0, xm, j as int);
    }
    r.insert(j, (labels, d));
    proof {
        assert forall|q: int| 0 <= q < hist_samples_model(r@).len() implies hist_samples_model(
            r@,
        )[q] == (m0.take(j as int) + seq![xm] + m0.skip(j as int))[q] by {
            if q < j as int {
                assert(r@[q] == old(r)@[q]);
            } else if q == j as int {
            } else {
                assert(r@[q] == old(r)@[q - 1]);
            }
        }
        assert(hist_samples_model(r@) =~= m0.take(j as int) + seq![xm] + m0.skip(j as int));
        assert forall|q: int| 0 <= q < r@.len() implies (#[trigger] r@[q]).1 == d || exists|k: int|
            0 <= k < old(r)@.len() && r@[q].1 == old(r)@[k].1 by {
            if q < j as int {
                assert(r@[q].1 == old(r)@[q].1);
            } else if q > j as int {
                assert(r@[q].1 == old(r)@[q - 1].1);
            }
        }
    }
}

/// A copy of a histogram family's samples, ordered by label tuple; every
/// copy is well-formed for the same bounds as its source.
fn sort_samples_hist(s: &Vec<(Vec<String>, HistogramData)>, Ghost(blen): Ghost<nat>) -> (r: Vec<
    (Vec<String>, HistogramData),
>)
    requires
        forall|k: int| 0 <= k < s@.len() ==> (#[trigger] s@[k]).1.wf(blen),
    ensures
        hist_samples_model(r@) == spec_sort_model(hist_samples_model(s@)),
        forall|q: int| 0 <= q < r@.len() ==> (#[trigger] r@[q]).1.wf(blen),
{
    let mut r: Vec<(Vec<String>, HistogramData)> = Vec::new();
    proof {
        assert(hist_samples_model(s@.take(0)) =~= Seq::<(Seq<Seq<u8>>, (Seq<u64>, u64, u64))>::empty());
        assert(hist_samples_model(r@) =~= spec_sort_model(hist_samples_model(s@.take(0))));
    }
    let mut i: usize = 0;
    while i < s.len()
        invariant
            i <= s@.len(),
            hist_samples_model(r@) == spec_sort_model(hist_samples_model(s@.take(i as int))),
            forall|k: int| 0 <= k < s@.len() ==> (#[trigger] s@[k]).1.wf(blen),
            forall|q: int| 0 <= q < r@.len() ==> (#[trigger] r@[q]).1.wf(blen),
        decreases s@.len() - i,
    {
        let labels = clone_labels(&s[i].0);
        let data = dup_histogram_data(&s[i].1);
        let ghost mprev = hist_samples_model(s@.take(i as int));
        proof {
            assert(s@[i as int].1.wf(blen));
            assert(data.wf(blen));
        }
        insert_sample_hist(&mut r, labels, data);
        proof {
            assert forall|k: int| 0 <= k < labels_bytes(labels@).len() implies labels_bytes(
                labels@,
            )[k] == labels_bytes(s@[i as int].0@)[k] by {
                assert(labels_view(labels@)[k] == labels_view(s@[i as int].0@)[k]);
            }
            assert(labels_bytes(labels@) =~= labels_bytes(s@[i as int].0@));
            assert(hist_samples_model(s@.take(i as int + 1)).drop_last() =~= mprev);
            assert(hist_samples_model(s@.take(i as int + 1)).last() == (
                labels_bytes(s@[i as int].0@),
                (s@[i as int].1.counts@, s@[i as int].1.sum, s@[i as int].1.count),
            ));
        }
        i = i + 1;
    }
    proof {
        assert(s@.take(s@.len() as int) =~= s@);
    }
    r
}

/// Append the rendered label pairs from `i` on.
fn push_label_pairs(out: &mut Vec<u8>, names: &Vec<String>, values: &Vec<String>, i: usize)
    requires
        i <= names@.len(),
    ensures
        final(out)@ == old(out)@ + spec_label_pairs(
            labels_bytes(names@),
            labels_bytes(values@),
            i as int,
        ),
    decreases names@.len() - i,
{
    let ghost nv = labels_bytes(names@);
    let ghost vv = labels_bytes(values@);
    if i == names.len() || i >= values.len() {
        assert(out@ =~= out@ + spec_label_pairs(nv, vv, i as int));
        return ;
    }
    push_bytes(out, names[i].as_str().as_bytes());
    out.push(61);
    out.push(34);
    push_prom_escaped(out, values[i].as_str().as_bytes(), 0);
    out.push(34);
    proof {
        assert(vstd::utf8::encode_utf8(values@[i as int]@).skip(0) =~= vstd::utf8::encode_utf8(
            values@[i as int]@,
        ));
    }
    if i + 1 < names.len() && i + 1 < values.len() {
        out.push(44);
        let ghost mid = out@;
        push_label_pairs(out, names, values, i + 1);
        assert(out@ =~= old(out)@ + spec_label_pairs(nv, vv, i as int));
    } else {
        assert(out@ =~= old(out)@ + spec_label_pairs(nv, vv, i as int));
    }
}

/// Append the label block.
fn push_label_block(out: &mut Vec<u8>, names: &Vec<String>, values: &Vec<String>)
    ensures
        final(out)@ == old(out)@ + spec_label_block(labels_bytes(names@), labels_bytes(values@)),
{
    if names.len() == 0 {
        assert(out@ =~= out@ + spec_label_block(labels_bytes(names@), labels_bytes(values@)));
        return ;
    }
    out.push(123);
    push_label_pairs(out, names, values, 0);
    out.push(125);
    assert(out@ =~= old(out)@ + spec_label_block(labels_bytes(names@), labels_bytes(values@)));
}

/// The `# HELP` and `# TYPE` preamble of a family.
pub open spec fn spec_preamble(name: Seq<u8>, help: Seq<u8>, kind: Seq<u8>) -> Seq<u8> {
    vstd::utf8::encode_utf8("# HELP "@) + name + seq![32u8] + help + seq![10u8]
        + vstd::utf8::encode_utf8("# TYPE "@) + name + seq![32u8] + kind + seq![10u8]
}

fn push_preamble(out: &mut Vec<u8>, name: &String, help: &String, kind: &str)
    ensures
        final(out)@ == old(out)@ + spec_preamble(
            vstd::utf8::encode_utf8(name@),
            vstd::utf8::encode_utf8(help@),
            kind.spec_bytes(),
        ),
{
    push_bytes(out, "# HELP ".as_bytes());
    push_bytes(out, name.as_str().as_bytes());
    out.push(32);
    push_bytes(out, help.as_str().as_bytes());
    out.push(10);
    push_bytes(out, "# TYPE ".as_bytes());
    push_bytes(out, name.as_str().as_bytes());
    out.push(32);
    push_bytes(out, kind.as_bytes());
    out.push(10);
    assert(out@ =~= old(out)@ + spec_preamble(
        vstd::utf8::encode_utf8(name@),
        vstd::utf8::encode_utf8(help@),
        kind.spec_bytes(),
    ));
}

/// The sample lines of a counter family, from sample `i` on.
pub open spec fn spec_counter_lines(
    name: Seq<u8>,
    names: Seq<Seq<u8>>,
    samples: Seq<(Seq<Seq<u8>>, u64)>,
    i: int,
) -> Seq<u8>
    decreases samples.len() - i,
{
    if i < 0 || i >= samples.len() {
        Seq::empty()
    } else {
        name + spec_label_block(names, samples[i].0) + seq![32u8] + dec_digits_of(
            samples[i].1 as nat,
        ) + seq![10u8] + spec_counter_lines(name, names, samples, i + 1)
    }
}

fn push_counter_lines(
    out: &mut Vec<u8>,
    name: &String,
    names: &Vec<String>,
    samples: &Vec<(Vec<String>, u64)>,
    i: usize,
)
    requires
        i <= samples@.len(),
    ensures
        final(out)@ == old(out)@ + spec_counter_lines(
            vstd::utf8::encode_utf8(name@),
            labels_bytes(names@),
            samples_model(samples@),
            i as int,
        ),
    decreases samples@.len() - i,
{
    let ghost namev = vstd::utf8::encode_utf8(name@);
    let ghost nv = labels_bytes(names@);
    let ghost sm = samples_model(samples@);
    if i == samples.len() {
        assert(out@ =~= out@ + spec_counter_lines(namev, nv, sm, i as int));
        return ;
    }
    push_bytes(out, name.as_str().as_bytes());
    push_label_block(out, names, &samples[i].0);
    out.push(32);
    let digits = dec_render(samples[i].1);
    push_bytes(out, digits.as_slice());
    out.push(10);
    push_counter_lines(out, name, names, samples, i + 1);
    assert(sm[i as int] == (labels_bytes(samples@[i as int].0@), samples@[i as int].1));
    assert(out@ =~= old(out)@ + spec_counter_lines(namev, nv, sm, i as int));
}

/// The sample lines of a gauge family (micro-unit values), from `i` on.
pub open spec fn spec_gauge_lines(
    name: Seq<u8>,
    names: Seq<Seq<u8>>,
    samples: Seq<(Seq<Seq<u8>>, u64)>,
    i: int,
) -> Seq<u8>
    decreases samples.len() - i,
{
    if i < 0 || i >= samples.len() {
        Seq::empty()
    } else {
        name + spec_label_block(names, samples[i].0) + seq![32u8] + scaled_digits(
            samples[i].1 as nat,
        ) + seq![10u8] + spec_gauge_lines(name, names, samples, i + 1)
    }
}

fn push_gauge_lines(
    out: &mut Vec<u8>,
    name: &String,
    names: &Vec<String>,
    samples: &Vec<(Vec<String>, u64)>,
    i: usize,
)
    requires
        i <= samples@.len(),
    ensures
        final(out)@ == old(out)@ + spec_gauge_lines(
            vstd::utf8::encode_utf8(name@),
            labels_bytes(names@),
            samples_model(samples@),
            i as int,
        ),
    decreases samples@.len() - i,
{
    let ghost namev = vstd::utf8::encode_utf8(name@);
    let ghost nv = labels_bytes(names@);
    let ghost sm = samples_model(samples@);
    if i == samples.len() {
        assert(out@ =~= out@ + spec_gauge_lines(namev, nv, sm, i as int));
        return ;
    }
    push_bytes(out, name.as_str().as_bytes());
    push_label_block(out, names, &samples[i].0);
    out.push(32);
    push_scaled(out, samples[i].1);
    out.push(10);
    push_gauge_lines(out, name, names, samples, i + 1);
    assert(sm[i as int] == (labels_bytes(samples@[i as int].0@), samples@[i as int].1));
    assert(out@ =~= old(out)@ + spec_gauge_lines(namev, nv, sm, i as int));
}

/// The whole exposition of a counter family.
pub open spec fn spec_counter_block(c: CounterVec) -> Seq<u8> {
    spec_preamble(
        vstd::utf8::encode_utf8(c.name@),
        vstd::utf8::encode_utf8(c.help@),
        vstd::utf8::encode_utf8("counter"@),
    ) + spec_counter_lines(
        vstd::utf8::encode_utf8(c.name@),
        labels_bytes(c.label_names@),
        spec_sort_model(samples_model(c.samples@)),
        0,
    )
}

/// The whole exposition of a gauge family.
pub open spec fn spec_gauge_block(g: GaugeVec) -> Seq<u8> {
    spec_preamble(
        vstd::utf8::encode_utf8(g.name@),
        vstd::utf8::encode_utf8(g.help@),
        vstd::utf8::encode_utf8("gauge"@),
    ) + spec_gauge_lines(
        vstd::utf8::encode_utf8(g.name@),
        labels_bytes(g.label_names@),
        spec_sort_model(samples_model(g.samples@)),
        0,
    )
}

/// The counter blocks from family `i` on.
pub open spec fn spec_counter_blocks(cs: Seq<CounterVec>, i: int) -> Seq<u8>
    decreases cs.len() - i,
{
    if i < 0 || i >= cs.len() {
        Seq::empty()
    } else {
        spec_counter_block(cs[i]) + spec_counter_blocks(cs, i + 1)
    }
}

/// The gauge blocks from family `i` on.
pub open spec fn spec_gauge_blocks(gs: Seq<GaugeVec>, i: int) -> Seq<u8>
    decreases gs.len() - i,
{
    if i < 0 || i >= gs.len() {
        Seq::empty()
    } else {
        spec_gauge_block(gs[i]) + spec_gauge_blocks(gs, i + 1)
    }
}

fn push_counter_blocks(out: &mut Vec<u8>, cs: &Vec<CounterVec>, i: usize)
    requires
        i <= cs@.len(),
    ensures
        final(out)@ == old(out)@ + spec_counter_blocks(cs@, i as int),
    decreases cs@.len() - i,
{
    if i == cs.len() {
        assert(out@ =~= out@ + spec_counter_blocks(cs@, i as int));
        return ;
    }
    let c = &cs[i];
    push_preamble(out, &c.name, &c.help, "counter");
    let sorted = sort_samples_u64(&c.samples);
    push_counter_lines(out, &c.name, &c.label_names, &sorted, 0);
    push_counter_blocks(out, cs, i + 1);
    assert(out@ =~= old(out)@ + spec_counter_blocks(cs@, i as int));
}

/// The bucket lines of one histogram sample, from bucket `b` on: each line
/// carries the cumulative count of observations at or below the bound.
pub open spec fn spec_bucket_lines(
    name: Seq<u8>,
    names: Seq<Seq<u8>>,
    values: Seq<Seq<u8>>,
    bounds: Seq<u64>,
    counts: Seq<u64>,
    b: int,
) -> Seq<u8>
    decreases bounds.len() - b,
{
    if b < 0 || b >= bounds.len() {
        Seq::empty()
    } else {
        name + vstd::utf8::encode_utf8("_bucket"@) + spec_label_block(
            names.push(vstd::utf8::encode_utf8("le"@)),
            values.push(scaled_digits(bounds[b] as nat)),
        ) + seq![32u8] + dec_digits_of(spec_counts_sum(counts, b + 1) as nat) + seq![10u8]
            + spec_bucket_lines(name, names, values, bounds, counts, b + 1)
    }
}

/// The full exposition of one histogram sample: its bucket lines, the
/// `+Inf` bucket (equal to the total count), the sum and the count.
pub open spec fn spec_histogram_sample(
    name: Seq<u8>,
    names: Seq<Seq<u8>>,
    values: Seq<Seq<u8>>,
    bounds: Seq<u64>,
    data: (Seq<u64>, u64, u64),
) -> Seq<u8> {
    spec_bucket_lines(name, names, values, bounds, data.0, 0) + name
        + vstd::utf8::encode_utf8("_bucket"@) + spec_label_block(
        names.push(vstd::utf8::encode_utf8("le"@)),
        values.push(vstd::utf8::encode_utf8("+Inf"@)),
    ) + seq![32u8] + dec_digits_of(data.2 as nat) + seq![10u8] + name
        + vstd::utf8::encode_utf8("_sum"@) + spec_label_block(names, values) + seq![32u8]
        + scaled_digits(data.1 as nat) + seq![10u8] + name + vstd::utf8::encode_utf8("_count"@)
        + spec_label_block(names, values) + seq![32u8] + dec_digits_of(data.2 as nat) + seq![
        10u8,
    ]
}

/// The sample expositions of a histogram family, from sample `i` on.
pub open spec fn spec_histogram_lines(
    name: Seq<u8>,
    names: Seq<Seq<u8>>,
    bounds: Seq<u64>,
    samples: Seq<(Seq<Seq<u8>>, (Seq<u64>, u64, u64))>,
    i: int,
) -> Seq<u8>
    decreases samples.len() - i,
{
    if i < 0 || i >= samples.len() {
        Seq::empty()
    } else {
        spec_histogram_sample(name, names, samples[i].0, bounds, samples[i].1)
            + spec_histogram_lines(name, names, bounds, samples, i + 1)
    }
}

/// The whole exposition of a histogram family.
pub open spec fn spec_histogram_block(h: HistogramVec) -> Seq<u8> {
    spec_preamble(
        vstd::utf8::encode_utf8(h.name@),
        vstd::utf8::encode_utf8(h.help@),
        vstd::utf8::encode_utf8("histogram"@),
    ) + spec_histogram_lines(
        vstd::utf8::encode_utf8(h.name@),
        labels_bytes(h.label_names@),
        h.bounds@,
        spec_sort_model(hist_samples_model(h.samples@)),
        0,
    )
}

/// The histogram blocks from family `i` on.
pub open spec fn spec_histogram_blocks(hs: Seq<HistogramVec>, i: int) -> Seq<u8>
    decreases hs.len() - i,
{
    if i < 0 || i >= hs.len() {
        Seq::empty()
    } else {
        spec_histogram_block(hs[i]) + spec_histogram_blocks(hs, i + 1)
    }
}

fn push_bucket_lines(
    out: &mut Vec<u8>,
    name: &String,
    names: &Vec<String>,
    values: &Vec<String>,
    bounds: &Vec<u64>,
    counts: &Vec<u64>,
    cumulative: u64,
    b: usize,
)
    requires
        b <= bounds@.len(),
        counts@.len() == bounds@.len() + 1,
        cumulative == spec_counts_sum(counts@, b as int),
        spec_counts_sum(counts@, counts@.len() as int) <= u64::MAX,
    ensures
        final(out)@ == old(out)@ + spec_bucket_lines(
            vstd::utf8::encode_utf8(name@),
            labels_bytes(names@),
            labels_bytes(values@),
            bounds@,
            counts@,
            b as int,
        ),
    decreases bounds@.len() - b,
{
    let ghost namev = vstd::utf8::encode_utf8(name@);
    let ghost nv = labels_bytes(names@);
    let ghost vv = labels_bytes(values@);
    if b == bounds.len() {
        assert(out@ =~= out@ + spec_bucket_lines(namev, nv, vv, bounds@, counts@, b as int));
        return ;
    }
    proof {
        lemma_counts_sum_nonneg_pub(counts@, b as int);
        lemma_counts_sum_prefix_le(counts@, b as int + 1, counts@.len() as int);
    }
    let next_cumulative = cumulative + counts[b];
    push_bytes(out, name.as_str().as_bytes());
    push_bytes(out, "_bucket".as_bytes());
    let mut le_names = clone_labels(names);
    le_names.push(String::from_str("le"));
    let mut le_values = clone_labels(values);
    let mut bound_text_bytes: Vec<u8> = Vec::new();
    push_scaled(&mut bound_text_bytes, bounds[b]);
    proof {
        lemma_scaled_digits_ascii(bounds@[b as int] as nat);
    }
    le_values.push(ascii_label(bound_text_bytes));
    proof {
        lemma_labels_bytes_push(names@, le_names@, vstd::utf8::encode_utf8("le"@));
        lemma_labels_bytes_push(values@, le_values@, scaled_digits(bounds@[b as int] as nat));
    }
    push_label_block(out, &le_names, &le_values);
    out.push(32);
    let digits = dec_render(next_cumulative);
    push_bytes(out, digits.as_slice());
    out.push(10);
    push_bucket_lines(out, name, names, values, bounds, counts, next_cumulative, b + 1);
    assert(out@ =~= old(out)@ + spec_bucket_lines(namev, nv, vv, bounds@, counts@, b as int));
}

/// Prefix sums are monotone in the prefix length.
proof fn lemma_counts_sum_prefix_le(counts: Seq<u64>, i: int, j: int)
    requires
        0 <= i <= j <= counts.len(),
    ensures
        spec_counts_sum(counts, i) <= spec_counts_sum(counts, j),
    decreases j - i,
{
    if i < j {
        lemma_counts_sum_nonneg_pub(counts, i);
        lemma_counts_sum_prefix_le(counts, i + 1, j);
    }
}

/// Prefix sums of bucket counts are nonnegative.
proof fn lemma_counts_sum_nonneg_pub(counts: Seq<u64>, i: int)
    ensures
        spec_counts_sum(counts, i) >= 0,
    decreases i,
{
    if i > 0 {
        lemma_counts_sum_nonneg_pub(counts, i - 1);
    }
}

/// Pushing a label extends the byte views by the pushed bytes.
proof fn lemma_labels_bytes_push(base: Seq<String>, extended: Seq<String>, added: Seq<u8>)
    requires
        extended.len() == base.len() + 1,
        forall|j: int| 0 <= j < base.len() ==> (#[trigger] extended[j])@ == base[j]@,
        vstd::utf8::encode_utf8(extended.last()@) == added,
    ensures
        labels_bytes(extended) == labels_bytes(base).push(added),
{
    assert(labels_bytes(extended) =~= labels_bytes(base).push(added));
}

/// A sequence of ASCII bytes is valid UTF-8.
pub proof fn lemma_ascii_valid_utf8(s: Seq<u8>)
    requires
        forall|i: int| 0 <= i < s.len() ==> #[trigger] s[i] < 128,
    ensures
        vstd::utf8::valid_utf8(s),
    decreases s.len(),
{
    if s.len() > 0 {
        assert(vstd::utf8::is_leading_byte_width_1(s[0]));
        assert(vstd::utf8::valid_first_scalar(s));
        assert(vstd::utf8::pop_first_scalar(s) =~= s.skip(1));
        lemma_ascii_valid_utf8(s.skip(1));
    }
}

/// Decimal digits are ASCII.
pub proof fn lemma_dec_digits_ascii(v: nat)
    ensures
        forall|i: int| 0 <= i < dec_digits_of(v).len() ==> #[trigger] dec_digits_of(v)[i] < 128,
    decreases v,
{
    if v < 10 {
        assert(dec_digits_of(v) =~= seq![(48 + v) as u8]);
        assert(dec_digits_of(v)[0] < 128);
    } else {
        lemma_dec_digits_ascii(v / 10);
        let prefix = dec_digits_of(v / 10);
        assert forall|i: int| 0 <= i < dec_digits_of(v).len() implies #[trigger] dec_digits_of(
            v,
        )[i] < 128 by {
            if i < prefix.len() {
                assert(dec_digits_of(v)[i] == prefix[i]);
            } else {
                assert(dec_digits_of(v)[i] == (48 + v % 10) as u8);
            }
        }
    }
}

/// Trimming keeps only original elements.
proof fn lemma_trim_zeros_subset(s: Seq<u8>)
    requires
        forall|i: int| 0 <= i < s.len() ==> #[trigger] s[i] < 128,
    ensures
        forall|i: int| 0 <= i < trim_zeros(s).len() ==> #[trigger] trim_zeros(s)[i] < 128,
    decreases s.len(),
{
    if s.len() > 1 && s.last() == 48 {
        assert(forall|i: int| 0 <= i < s.drop_last().len() ==> #[trigger] s.drop_last()[i] < 128);
        lemma_trim_zeros_subset(s.drop_last());
        assert(trim_zeros(s) == trim_zeros(s.drop_last()));
    } else {
        assert(trim_zeros(s) == s);
        assert forall|i: int| 0 <= i < trim_zeros(s).len() implies #[trigger] trim_zeros(s)[i]
            < 128 by {
            assert(trim_zeros(s)[i] == s[i]);
        }
    }
}

/// The rendering of a micro-unit value is ASCII, hence valid UTF-8.
proof fn lemma_scaled_digits_ascii(v: nat)
    ensures
        vstd::utf8::valid_utf8(scaled_digits(v)),
{
    lemma_dec_digits_ascii(v / 1000000);
    lemma_trim_zeros_subset(pad6(v % 1000000));
    assert(forall|i: int| 0 <= i < scaled_digits(v).len() ==> #[trigger] scaled_digits(v)[i]
        < 128);
    lemma_ascii_valid_utf8(scaled_digits(v));
}

/// Wrap ASCII bytes in a `String` label value.
fn ascii_label(bytes: Vec<u8>) -> (r: String)
    requires
        vstd::utf8::valid_utf8(bytes@),
    ensures
        vstd::utf8::encode_utf8(r@) == bytes@,
{
    match crate::crypto::string_from_utf8(bytes) {
        Ok(s) => s,
        Err(()) => String::new(),
    }
}

#[verifier::rlimit(100)]
#[verifier::spinoff_prover]
fn push_histogram_sample(
    out: &mut Vec<u8>,
    name: &String,
    names: &Vec<String>,
    labels: &Vec<String>,
    bounds: &Vec<u64>,
    data: &HistogramData,
)
    requires
        data.wf(bounds@.len()),
    ensures
        final(out)@ == old(out)@ + spec_histogram_sample(
            vstd::utf8::encode_utf8(name@),
            labels_bytes(names@),
            labels_bytes(labels@),
            bounds@,
            (data.counts@, data.sum, data.count),
        ),
{
    push_bucket_lines(out, name, names, labels, bounds, &data.counts, 0, 0);
    push_bytes(out, name.as_str().as_bytes());
    push_bytes(out, "_bucket".as_bytes());
    let mut le_names = clone_labels(names);
    le_names.push(String::from_str("le"));
    let mut le_values = clone_labels(labels);
    le_values.push(String::from_str("+Inf"));
    proof {
        lemma_labels_bytes_push(names@, le_names@, vstd::utf8::encode_utf8("le"@));
        lemma_labels_bytes_push(labels@, le_values@, vstd::utf8::encode_utf8("+Inf"@));
    }
    push_label_block(out, &le_names, &le_values);
    out.push(32);
    let digits = dec_render(data.count);
    push_bytes(out, digits.as_slice());
    out.push(10);
    push_bytes(out, name.as_str().as_bytes());
    push_bytes(out, "_sum".as_bytes());
    push_label_block(out, names, labels);
    out.push(32);
    push_scaled(out, data.sum);
    out.push(10);
    push_bytes(out, name.as_str().as_bytes());
    push_bytes(out, "_count".as_bytes());
    push_label_block(out, names, labels);
    out.push(32);
    let count_digits = dec_render(data.count);
    push_bytes(out, count_digits.as_slice());
    out.push(10);
    assert(out@ =~= old(out)@ + spec_histogram_sample(
        vstd::utf8::encode_utf8(name@),
        labels_bytes(names@),
        labels_bytes(labels@),
        bounds@,
        (data.counts@, data.sum, data.count),
    ));
}

fn push_histogram_lines(
    out: &mut Vec<u8>,
    name: &String,
    names: &Vec<String>,
    bounds: &Vec<u64>,
    samples: &Vec<(Vec<String>, HistogramData)>,
    i: usize,
)
    requires
        i <= samples@.len(),
        forall|j: int| 0 <= j < samples@.len() ==> (#[trigger] samples@[j]).1.wf(bounds@.len()),
    ensures
        final(out)@ == old(out)@ + spec_histogram_lines(
            vstd::utf8::encode_utf8(name@),
            labels_bytes(names@),
            bounds@,
            hist_samples_model(samples@),
            i as int,
        ),
    decreases samples@.len() - i,
{
    let ghost namev = vstd::utf8::encode_utf8(name@);
    let ghost nv = labels_bytes(names@);
    let ghost sm = hist_samples_model(samples@);
    if i == samples.len() {
        assert(out@ =~= out@ + spec_histogram_lines(namev, nv, bounds@, sm, i as int));
        return ;
    }
    let (labels, data) = &samples[i];
    assert(data.wf(bounds@.len()));
    push_histogram_sample(out, name, names, labels, bounds, data);
    push_histogram_lines(out, name, names, bounds, samples, i + 1);
    assert(sm[i as int] == (
        labels_bytes(samples@[i as int].0@),
        (samples@[i as int].1.counts@, samples@[i as int].1.sum, samples@[i as int].1.count),
    ));
    assert(out@ =~= old(out)@ + spec_histogram_lines(namev, nv, bounds@, sm, i as int));
}

#[verifier::rlimit(100)]
#[verifier::spinoff_prover]
fn push_histogram_blocks(out: &mut Vec<u8>, hs: &Vec<HistogramVec>, i: usize)
    requires
        i <= hs@.len(),
        forall|j: int| 0 <= j < hs@.len() ==> (#[trigger] hs@[j]).wf(),
    ensures
        final(out)@ == old(out)@ + spec_histogram_blocks(hs@, i as int),
    decreases hs@.len() - i,
{
    if i == hs.len() {
        assert(out@ =~= out@ + spec_histogram_blocks(hs@, i as int));
        return ;
    }
    let h = &hs[i];
    assert(h.wf());
    push_preamble(out, &h.name, &h.help, "histogram");
    let sorted = sort_samples_hist(&h.samples, Ghost(h.bounds@.len()));
    push_histogram_lines(out, &h.name, &h.label_names, &h.bounds, &sorted, 0);
    push_histogram_blocks(out, hs, i + 1);
    assert(out@ =~= old(out)@ + spec_histogram_blocks(hs@, i as int));
}

/// The metrics registry: every registered family, exposed in registration
/// order as counters, then gauges, then histograms.
#[derive(Debug)]
pub struct Registry {
    pub counters: Vec<CounterVec>,
    pub gauges: Vec<GaugeVec>,
    pub histograms: Vec<HistogramVec>,
}

/// The index of the first name in the sequence equal to `name`, if any.
pub open spec fn spec_find_name(names: Seq<Seq<char>>, name: Seq<char>, k: int) -> Option<int>
    decreases names.len() - k,
{
    if k < 0 || k >= names.len() {
        None
    } else if names[k] == name {
        Some(k)
    } else {
        spec_find_name(names, name, k + 1)
    }
}

/// The registered counter family names, in registration order.
pub open spec fn counter_names(cs: Seq<CounterVec>) -> Seq<Seq<char>> {
    cs.map_values(|c: CounterVec| c.name@)
}

/// The registered gauge family names, in registration order.
pub open spec fn gauge_names(gs: Seq<GaugeVec>) -> Seq<Seq<char>> {
    gs.map_values(|g: GaugeVec| g.name@)
}

/// The registered histogram family names, in registration order.
pub open spec fn histogram_names(hs: Seq<HistogramVec>) -> Seq<Seq<char>> {
    hs.map_values(|h: HistogramVec| h.name@)
}

/// The whole Prometheus exposition of a registry.
pub open spec fn spec_encode(r: Registry) -> Seq<u8> {
    spec_counter_blocks(r.counters@, 0) + spec_gauge_blocks(r.gauges@, 0) + spec_histogram_blocks(
        r.histograms@,
        0,
    )
}

impl Registry {
    /// Registry well-formedness: every histogram family is well-formed.
    pub open spec fn wf(self) -> bool {
        forall|j: int| 0 <= j < self.histograms@.len() ==> (#[trigger] self.histograms@[j]).wf()
    }

    /// An empty registry.
    pub fn new() -> (r: Registry)
        ensures
            r.wf(),
            r.counters@.len() == 0,
            r.gauges@.len() == 0,
            r.histograms@.len() == 0,
    {
        Registry { counters: Vec::new(), gauges: Vec::new(), histograms: Vec::new() }
    }

    /// Register a counter family, returning its index; a family with the
    /// same name is reused, and the registry is then left unchanged.
    pub fn register_counter(&mut self, name: String, help: String, label_names: Vec<String>) -> (r:
        usize)
        requires
            old(self).wf(),
        ensures
            final(self).wf(),
            r < final(self).counters@.len(),
            final(self).counters@[r as int].name@ == name@,
            final(self).gauges@ == old(self).gauges@,
            final(self).histograms@ == old(self).histograms@,
            match spec_find_name(counter_names(old(self).counters@), name@, 0) {
                Some(k) => *final(self) == *old(self) && r == k,
                None => {
                    &&& final(self).counters@.len() == old(self).counters@.len() + 1
                    &&& r == old(self).counters@.len()
                    &&& forall|j: int| 0 <= j < old(self).counters@.len() ==> final(self).counters@[j] == old(self).counters@[j]
                    &&& final(self).counters@.last().help@ == help@
                    &&& final(self).counters@.last().label_names@ == label_names@
                    &&& final(self).counters@.last().samples@.len() == 0
                },
            },
    {
        let ghost cn = counter_names(old(self).counters@);
        let mut i: usize = 0;
        while i < self.counters.len()
            invariant
                i <= self.counters@.len(),
                *self == *old(self),
                old(self).wf(),
                cn == counter_names(self.counters@),
                spec_find_name(cn, name@, 0) == spec_find_name(cn, name@, i as int),
            decreases self.counters@.len() - i,
        {
            let r = crate::audit::strings_equal_pub(&self.counters[i].name, &name);
            assert(cn[i as int] == self.counters@[i as int].name@);
            if r {
                return i;
            }
            i = i + 1;
        }
        assert(spec_find_name(cn, name@, 0) is None);
        self.counters.push(CounterVec::new(name, help, label_names));
        self.counters.len() - 1
    }

    /// Register a gauge family, returning its index; a family with the same
    /// name is reused, and the registry is then left unchanged.
    pub fn register_gauge(&mut self, name: String, help: String, label_names: Vec<String>) -> (r:
        usize)
        requires
            old(self).wf(),
        ensures
            final(self).wf(),
            r < final(self).gauges@.len(),
            final(self).gauges@[r as int].name@ == name@,
            final(self).counters@ == old(self).counters@,
            final(self).histograms@ == old(self).histograms@,
            match spec_find_name(gauge_names(old(self).gauges@), name@, 0) {
                Some(k) => *final(self) == *old(self) && r == k,
                None => {
                    &&& final(self).gauges@.len() == old(self).gauges@.len() + 1
                    &&& r == old(self).gauges@.len()
                    &&& forall|j: int| 0 <= j < old(self).gauges@.len() ==> final(self).gauges@[j] == old(self).gauges@[j]
                    &&& final(self).gauges@.last().help@ == help@
                    &&& final(self).gauges@.last().label_names@ == label_names@
                    &&& final(self).gauges@.last().samples@.len() == 0
                },
            },
    {
        let ghost gn = gauge_names(old(self).gauges@);
        let mut i: usize = 0;
        while i < self.gauges.len()
            invariant
                i <= self.gauges@.len(),
                *self == *old(self),
                old(self).wf(),
                gn == gauge_names(self.gauges@),
                spec_find_name(gn, name@, 0) == spec_find_name(gn, name@, i as int),
            decreases self.gauges@.len() - i,
        {
            let r = crate::audit::strings_equal_pub(&self.gauges[i].name, &name);
            assert(gn[i as int] == self.gauges@[i as int].name@);
            if r {
                return i;
            }
            i = i + 1;
        }
        assert(spec_find_name(gn, name@, 0) is None);
        self.gauges.push(GaugeVec::new(name, help, label_names));
        self.gauges.len() - 1
    }

    /// Register a histogram family, returning its index; a family with the
    /// same name is reused.
    pub fn register_histogram(
        &mut self,
        name: String,
        help: String,
        label_names: Vec<String>,
        bounds: Vec<u64>,
    ) -> (r: usize)
        requires
            old(self).wf(),
            bounds@.len() < usize::MAX,
        ensures
            final(self).wf(),
            r < final(self).histograms@.len(),
            final(self).histograms@[r as int].name@ == name@,
            final(self).counters@ == old(self).counters@,
            final(self).gauges@ == old(self).gauges@,
            match spec_find_name(histogram_names(old(self).histograms@), name@, 0) {
                Some(k) => *final(self) == *old(self) && r == k,
                None => {
                    &&& final(self).histograms@.len() == old(self).histograms@.len() + 1
                    &&& r == old(self).histograms@.len()
                    &&& forall|j: int| 0 <= j < old(self).histograms@.len() ==> final(self).histograms@[j] == old(self).histograms@[j]
                    &&& final(self).histograms@.last().help@ == help@
                    &&& final(self).histograms@.last().label_names@ == label_names@
                    &&& final(self).histograms@.last().bounds@ == bounds@
                    &&& final(self).histograms@.last().samples@.len() == 0
                },
            },
    {
        let ghost hn = histogram_names(old(self).histograms@);
        let mut i: usize = 0;
        while i < self.histograms.len()
            invariant
                i <= self.histograms@.len(),
                *self == *old(self),
                old(self).wf(),
                hn == histogram_names(self.histograms@),
                spec_find_name(hn, name@, 0) == spec_find_name(hn, name@, i as int),
            decreases self.histograms@.len() - i,
        {
            let r = crate::audit::strings_equal_pub(&self.histograms[i].name, &name);
            assert(hn[i as int] == self.histograms@[i as int].name@);
            if r {
                return i;
            }
            i = i + 1;
        }
        assert(spec_find_name(hn, name@, 0) is None);
        self.histograms.push(HistogramVec::new(name, help, label_names, bounds));
        self.histograms.len() - 1
    }

    /// The Prometheus text exposition of every family: counters, then
    /// gauges, then histograms, each with its preamble and its samples in
    /// insertion order.
    pub fn encode_prometheus(&self) -> (r: Vec<u8>)
        requires
            self.wf(),
        ensures
            r@ == spec_encode(*self),
    {
        let mut out: Vec<u8> = Vec::new();
        push_counter_blocks(&mut out, &self.counters, 0);
        push_gauge_blocks(&mut out, &self.gauges, 0);
        push_histogram_blocks(&mut out, &self.histograms, 0);
        assert(out@ =~= spec_encode(*self));
        out
    }
}

/// The default latency bucket bounds, in micro-units: 0.01, 0.05, 0.1,
/// 0.25, 0.5, 1, 2 and 5 seconds.
pub fn default_buckets() -> (r: Vec<u64>)
    ensures
        r@ =~= seq![
            10000u64,
            50000u64,
            100000u64,
            250000u64,
            500000u64,
            1000000u64,
            2000000u64,
            5000000u64,
        ],
{
    let mut v: Vec<u64> = Vec::new();
    v.push(10000);
    v.push(50000);
    v.push(100000);
    v.push(250000);
    v.push(500000);
    v.push(1000000);
    v.push(2000000);
    v.push(5000000);
    v
}

fn push_label(v: &mut Vec<String>, s: &str)
    ensures
        final(v)@.len() == old(v)@.len() + 1,
        labels_view(final(v)@) == labels_view(old(v)@).push(s@),
{
    v.push(s.to_owned());
    assert(labels_view(v@) =~= labels_view(old(v)@).push(s@));
}

impl Registry {
    /// The `http_requests_total` counter family.
    pub fn http_requests_total(&mut self) -> (r: usize)
        requires
            old(self).wf(),
        ensures
            final(self).wf(),
            r < final(self).counters@.len(),
            final(self).counters@[r as int].name@ == "http_requests_total"@,
            final(self).gauges@ == old(self).gauges@,
            final(self).histograms@ == old(self).histograms@,
            match spec_find_name(counter_names(old(self).counters@), "http_requests_total"@, 0) {
                Some(k) => *final(self) == *old(self) && r == k,
                None => {
                    &&& final(self).counters@.len() == old(self).counters@.len() + 1
                    &&& r == old(self).counters@.len()
                    &&& forall|j: int| 0 <= j < old(self).counters@.len() ==> final(self).counters@[j] == old(self).counters@[j]
                    &&& labels_view(final(self).counters@.last().label_names@) == seq![
                        "service"@,
                        "route"@,
                        "code"@,
                    ]
                    &&& final(self).counters@.last().samples@.len() == 0
                },
            },
    {
        let mut labels: Vec<String> = Vec::new();
        push_label(&mut labels, "service");
        push_label(&mut labels, "route");
        push_label(&mut labels, "code");
        self.register_counter(
            String::from_str("http_requests_total"),
            String::from_str("Total HTTP requests received"),
            labels,
        )
    }

    /// The `handler_latency_seconds` histogram family.
    pub fn handler_latency_seconds(&mut self) -> (r: usize)
        requires
            old(self).wf(),
        ensures
            final(self).wf(),
            r < final(self).histograms@.len(),
            final(self).histograms@[r as int].name@ == "handler_latency_seconds"@,
            final(self).counters@ == old(self).counters@,
            final(self).gauges@ == old(self).gauges@,
            match spec_find_name(
                histogram_names(old(self).histograms@),
                "handler_latency_seconds"@,
                0,
            ) {
                Some(k) => *final(self) == *old(self) && r == k,
                None => {
                    &&& final(self).histograms@.len() == old(self).histograms@.len() + 1
                    &&& r == old(self).histograms@.len()
                    &&& forall|j: int| 0 <= j < old(self).histograms@.len() ==> final(self).histograms@[j] == old(self).histograms@[j]
                    &&& labels_view(final(self).histograms@.last().label_names@) == seq![
                        "service"@,
                        "route"@,
                    ]
                    &&& final(self).histograms@.last().bounds@ == seq![
                        10000u64,
                        50000u64,
                        100000u64,
                        250000u64,
                        500000u64,
                        1000000u64,
                        2000000u64,
                        5000000u64,
                    ]
                    &&& final(self).histograms@.last().samples@.len() == 0
                },
            },
    {
        let mut labels: Vec<String> = Vec::new();
        push_label(&mut labels, "service");
        push_label(&mut labels, "route");
        self.register_histogram(
            String::from_str("handler_latency_seconds"),
            String::from_str("HTTP handler latency in seconds"),
            labels,
            default_buckets(),
        )
    }

    /// The `msgbus_publish_total` counter family.
    pub fn msgbus_publish_total(&mut self) -> (r: usize)
        requires
            old(self).wf(),
        ensures
            final(self).wf(),
            r < final(self).counters@.len(),
            final(self).counters@[r as int].name@ == "msgbus_publish_total"@,
            final(self).gauges@ == old(self).gauges@,
            final(self).histograms@ == old(self).histograms@,
            match spec_find_name(counter_names(old(self).counters@), "msgbus_publish_total"@, 0) {
                Some(k) => *final(self) == *old(self) && r == k,
                None => {
                    &&& final(self).counters@.len() == old(self).counters@.len() + 1
                    &&& r == old(self).counters@.len()
                    &&& forall|j: int| 0 <= j < old(self).counters@.len() ==> final(self).counters@[j] == old(self).counters@[j]
                    &&& labels_view(final(self).counters@.last().label_names@) == seq![
                        "service"@,
                        "subject"@,
                    ]
                    &&& final(self).counters@.last().samples@.len() == 0
                },
            },
    {
        let mut labels: Vec<String> = Vec::new();
        push_label(&mut labels, "service");
        push_label(&mut labels, "subject");
        self.register_counter(
            String::from_str("msgbus_publish_total"),
            String::from_str("Total messages published to the message bus"),
            labels,
        )
    }

    /// The `msgbus_subscribe_total` counter family.
    pub fn msgbus_subscribe_total(&mut self) -> (r: usize)
        requires
            old(self).wf(),
        ensures
            final(self).wf(),
            r < final(self).counters@.len(),
            final(self).counters@[r as int].name@ == "msgbus_subscribe_total"@,
            final(self).gauges@ == old(self).gauges@,
            final(self).histograms@ == old(self).histograms@,
            match spec_find_name(counter_names(old(self).counters@), "msgbus_subscribe_total"@, 0) {
                Some(k) => *final(self) == *old(self) && r == k,
                None => {
                    &&& final(self).counters@.len() == old(self).counters@.len() + 1
                    &&& r == old(self).counters@.len()
                    &&& forall|j: int| 0 <= j < old(self).counters@.len() ==> final(self).counters@[j] == old(self).counters@[j]
                    &&& labels_view(final(self).counters@.last().label_names@) == seq![
                        "service"@,
                        "subject"@,
                    ]
                    &&& final(self).counters@.last().samples@.len() == 0
                },
            },
    {
        let mut labels: Vec<String> = Vec::new();
        push_label(&mut labels, "service");
        push_label(&mut labels, "subject");
        self.register_counter(
            String::from_str("msgbus_subscribe_total"),
            String::from_str("Total subscriptions created on the message bus"),
            labels,
        )
    }

    /// The `process_uptime_seconds` gauge family.
    pub fn process_uptime_seconds(&mut self) -> (r: usize)
        requires
            old(self).wf(),
        ensures
            final(self).wf(),
            r < final(self).gauges@.len(),
            final(self).gauges@[r as int].name@ == "process_uptime_seconds"@,
            final(self).counters@ == old(self).counters@,
            final(self).histograms@ == old(self).histograms@,
            match spec_find_name(gauge_names(old(self).gauges@), "process_uptime_seconds"@, 0) {
                Some(k) => *final(self) == *old(self) && r == k,
                None => {
                    &&& final(self).gauges@.len() == old(self).gauges@.len() + 1
                    &&& r == old(self).gauges@.len()
                    &&& forall|j: int| 0 <= j < old(self).gauges@.len() ==> final(self).gauges@[j] == old(self).gauges@[j]
                    &&& labels_view(final(self).gauges@.last().label_names@) == seq!["service"@]
                    &&& final(self).gauges@.last().samples@.len() == 0
                },
            },
    {
        let mut labels: Vec<String> = Vec::new();
        push_label(&mut labels, "service");
        self.register_gauge(
            String::from_str("process_uptime_seconds"),
            String::from_str("Process uptime in seconds"),
            labels,
        )
    }

    /// The `build_info` gauge family.
    pub fn build_info(&mut self) -> (r: usize)
        requires
            old(self).wf(),
        ensures
            final(self).wf(),
            r < final(self).gauges@.len(),
            final(self).gauges@[r as int].name@ == "build_info"@,
            final(self).counters@ == old(self).counters@,
            final(self).histograms@ == old(self).histograms@,
            match spec_find_name(gauge_names(old(self).gauges@), "build_info"@, 0) {
                Some(k) => *final(self) == *old(self) && r == k,
                None => {
                    &&& final(self).gauges@.len() == old(self).gauges@.len() + 1
                    &&& r == old(self).gauges@.len()
                    &&& forall|j: int| 0 <= j < old(self).gauges@.len() ==> final(self).gauges@[j] == old(self).gauges@[j]
                    &&& labels_view(final(self).gauges@.last().label_names@) == seq![
                        "service"@,
                        "version"@,
                        "build_sha"@,
                        "build_time"@,
                    ]
                    &&& final(self).gauges@.last().samples@.len() == 0
                },
            },
    {
        let mut labels: Vec<String> = Vec::new();
        push_label(&mut labels, "service");
        push_label(&mut labels, "version");
        push_label(&mut labels, "build_sha");
        push_label(&mut labels, "build_time");
        self.register_gauge(
            String::from_str("build_info"),
            String::from_str("Build information for the running service"),
            labels,
        )
    }
}

fn push_gauge_blocks(out: &mut Vec<u8>, gs: &Vec<GaugeVec>, i: usize)
    requires
        i <= gs@.len(),
    ensures
        final(out)@ == old(out)@ + spec_gauge_blocks(gs@, i as int),
    decreases gs@.len() - i,
{
    if i == gs.len() {
        assert(out@ =~= out@ + spec_gauge_blocks(gs@, i as int));
        return ;
    }
    let g = &gs[i];
    push_preamble(out, &g.name, &g.help, "gauge");
    let sorted = sort_samples_u64(&g.samples);
    push_gauge_lines(out, &g.name, &g.label_names, &sorted, 0);
    push_gauge_blocks(out, gs, i + 1);
    assert(out@ =~= old(out)@ + spec_gauge_blocks(gs@, i as int));
}

} // verus!
