//! The process-wide gauge store.
//!
//! A registry holds the current value of every named gauge, keyed by the
//! metric name together with its label list.  Writing a key that is already
//! present supersedes its value in place; writing a new key appends it.
//! Keys that a pass does not revisit keep their last-known value.
//!
//! A process shares one registry across concurrent scrapes behind its own
//! synchronization; each write is one in-place supersession, so the
//! accepted consistency is last writer wins per key, not one atomic
//! snapshot per pass.

use vstd::pervasive::VecAdditionalExecFns;
use vstd::prelude::*;

verus! {

/// The value of one gauge.
#[derive(Clone, Copy, PartialEq, Eq, Structural, Debug)]
pub enum MetricValue {
    /// A plain non-negative count or size.
    Whole(u64),
    /// A signed whole number (a Unix timestamp in seconds).
    Signed(i64),
    /// A duration in nanoseconds, exposed in fractional seconds.
    Seconds { nanos: i128 },
}

/// One named gauge together with its labels.
pub struct MetricSample {
    pub name: String,
    pub labels: Vec<(String, String)>,
    pub value: MetricValue,
}

/// The mathematical shape of a sample: every string replaced by its
/// character sequence.
#[verifier::ext_equal]
pub struct SampleModel {
    pub name: Seq<char>,
    pub labels: Seq<(Seq<char>, Seq<char>)>,
    pub value: MetricValue,
}

/// The character sequences of a label list.
pub open spec fn label_views(labels: Seq<(String, String)>) -> Seq<(Seq<char>, Seq<char>)> {
    labels.map_values(|p: (String, String)| (p.0@, p.1@))
}

impl SampleModel {
    /// The key under which this sample is stored.
    pub open spec fn key(self) -> (Seq<char>, Seq<(Seq<char>, Seq<char>)>) {
        (self.name, self.labels)
    }
}

impl MetricSample {
    /// The sample's mathematical shape.
    pub open spec fn model(self) -> SampleModel {
        SampleModel { name: self.name@, labels: label_views(self.labels@), value: self.value }
    }
}

/// The models of a sequence of samples.
pub open spec fn models(s: Seq<MetricSample>) -> Seq<SampleModel> {
    s.map_values(|x: MetricSample| x.model())
}

/// The first position holding key `k`, or `-1` when `k` is absent.
pub open spec fn spec_find(s: Seq<SampleModel>, k: (Seq<char>, Seq<(Seq<char>, Seq<char>)>)) -> int
    decreases s.len(),
{
    if s.len() == 0 {
        -1
    } else if s[0].key() == k {
        0
    } else {
        let r = spec_find(s.drop_first(), k);
        if r < 0 {
            -1
        } else {
            r + 1
        }
    }
}

/// The store after one write: the first sample with the same key is
/// superseded in place; a new key is appended.
pub open spec fn spec_set(s: Seq<SampleModel>, m: SampleModel) -> Seq<SampleModel> {
    let i = spec_find(s, m.key());
    if i < 0 {
        s.push(m)
    } else {
        s.update(i, m)
    }
}

/// The current value stored under key `k`.
pub open spec fn spec_lookup(
    s: Seq<SampleModel>,
    k: (Seq<char>, Seq<(Seq<char>, Seq<char>)>),
) -> Option<MetricValue> {
    let i = spec_find(s, k);
    if i < 0 {
        None
    } else {
        Some(s[i].value)
    }
}

/// No two samples share a key.
pub open spec fn distinct_keys(s: Seq<SampleModel>) -> bool {
    forall|i: int, j: int| 0 <= i < j < s.len() ==> s[i].key() != s[j].key()
}

/// Where `spec_find` answers, it answers the first position holding the key.
pub proof fn lemma_find_in_range(s: Seq<SampleModel>, k: (Seq<char>, Seq<(Seq<char>, Seq<char>)>))
    ensures
        spec_find(s, k) < s.len(),
        spec_find(s, k) >= 0 ==> s[spec_find(s, k)].key() == k,
        spec_find(s, k) >= 0 ==> forall|j: int| 0 <= j < spec_find(s, k) ==> s[j].key() != k,
        spec_find(s, k) < 0 ==> forall|j: int| 0 <= j < s.len() ==> s[j].key() != k,
    decreases s.len(),
{
    if s.len() > 0 && s[0].key() != k {
        lemma_find_in_range(s.drop_first(), k);
        assert forall|j: int| 1 <= j < s.len() implies #[trigger] s[j].key() == s.drop_first()[
            j - 1
        ].key() by {
            assert(s.drop_first()[j - 1] == s[j]);
        }
    }
}

/// `spec_find` answers the first matching position.
pub proof fn lemma_find_characterizes(
    s: Seq<SampleModel>,
    k: (Seq<char>, Seq<(Seq<char>, Seq<char>)>),
    i: int,
)
    requires
        0 <= i < s.len(),
        s[i].key() == k,
        forall|j: int| 0 <= j < i ==> s[j].key() != k,
    ensures
        spec_find(s, k) == i,
    decreases i,
{
    if i > 0 {
        assert forall|j: int| 0 <= j < i - 1 implies #[trigger] s.drop_first()[j].key() != k by {
            assert(s.drop_first()[j] == s[j + 1]);
        }
        lemma_find_characterizes(s.drop_first(), k, i - 1);
    }
}

/// `spec_find` answers `-1` exactly when no sample holds the key.
pub proof fn lemma_find_absent(s: Seq<SampleModel>, k: (Seq<char>, Seq<(Seq<char>, Seq<char>)>))
    requires
        forall|j: int| 0 <= j < s.len() ==> s[j].key() != k,
    ensures
        spec_find(s, k) == -1,
    decreases s.len(),
{
    if s.len() > 0 {
        assert forall|j: int| 0 <= j < s.len() - 1 implies #[trigger] s.drop_first()[j].key()
            != k by {
            assert(s.drop_first()[j] == s[j + 1]);
        }
        lemma_find_absent(s.drop_first(), k);
    }
}

/// `spec_find` looks only at keys: two stores with the same keys in the same
/// order agree on it.
proof fn lemma_find_same_keys(
    s: Seq<SampleModel>,
    t: Seq<SampleModel>,
    k: (Seq<char>, Seq<(Seq<char>, Seq<char>)>),
)
    requires
        s.len() == t.len(),
        forall|j: int| 0 <= j < s.len() ==> s[j].key() == t[j].key(),
    ensures
        spec_find(s, k) == spec_find(t, k),
    decreases s.len(),
{
    if s.len() > 0 {
        assert forall|j: int| 0 <= j < s.len() - 1 implies #[trigger] s.drop_first()[j].key()
            == t.drop_first()[j].key() by {
            assert(s.drop_first()[j] == s[j + 1]);
            assert(t.drop_first()[j] == t[j + 1]);
        }
        lemma_find_same_keys(s.drop_first(), t.drop_first(), k);
    }
}

/// One write changes exactly the written key and leaves every other key's
/// value as it was.
pub proof fn lemma_set_lookup(
    s: Seq<SampleModel>,
    m: SampleModel,
    k: (Seq<char>, Seq<(Seq<char>, Seq<char>)>),
)
    ensures
        spec_lookup(spec_set(s, m), k) == if k == m.key() {
            Some(m.value)
        } else {
            spec_lookup(s, k)
        },
{
    lemma_find_in_range(s, m.key());
    let i = spec_find(s, m.key());
    if i < 0 {
        let t = s.push(m);
        if k == m.key() {
            lemma_find_characterizes(t, k, s.len() as int);
        } else {
            lemma_find_in_range(s, k);
            let j = spec_find(s, k);
            if j >= 0 {
                lemma_find_characterizes(t, k, j);
            } else {
                lemma_find_absent(t, k);
            }
        }
    } else {
        let t = s.update(i, m);
        lemma_find_same_keys(s, t, k);
        lemma_find_in_range(s, k);
    }
}

/// A write whose key already holds the written value leaves the store
/// untouched.
pub proof fn lemma_set_noop(s: Seq<SampleModel>, m: SampleModel)
    requires
        spec_lookup(s, m.key()) == Some(m.value),
    ensures
        spec_set(s, m) == s,
{
    lemma_find_in_range(s, m.key());
    let i = spec_find(s, m.key());
    assert(s[i] =~= m);
    assert(spec_set(s, m) =~= s);
}

/// A write keeps every key distinct.
pub proof fn lemma_set_distinct(s: Seq<SampleModel>, m: SampleModel)
    requires
        distinct_keys(s),
    ensures
        distinct_keys(spec_set(s, m)),
{
    lemma_find_in_range(s, m.key());
}

/// The gauge store.  Its samples hold pairwise distinct keys.
pub struct MetricRegistry {
    samples: Vec<MetricSample>,
}

impl View for MetricRegistry {
    type V = Seq<SampleModel>;

    closed spec fn view(&self) -> Seq<SampleModel> {
        models(self.samples@)
    }
}

/// True when `a` and `b` carry the same label names and values.
#[verifier::loop_isolation(false)]
fn labels_eq(a: &Vec<(String, String)>, b: &Vec<(String, String)>) -> (r: bool)
    ensures
        r == (label_views(a@) == label_views(b@)),
{
    if a.len() != b.len() {
        assert(label_views(a@).len() != label_views(b@).len());
        return false;
    }
    let n = a.len();
    for i in 0..n
        invariant
            forall|j: int| 0 <= j < i ==> #[trigger] label_views(a@)[j] == label_views(b@)[j],
    {
        proof {
            assert(label_views(a@)[i as int] == (a@[i as int].0@, a@[i as int].1@));
            assert(label_views(b@)[i as int] == (b@[i as int].0@, b@[i as int].1@));
        }
        if !(a[i].0 == b[i].0 && a[i].1 == b[i].1) {
            assert(label_views(a@)[i as int] != label_views(b@)[i as int]);
            return false;
        }
    }
    proof {
        assert(label_views(a@) =~= label_views(b@));
    }
    true
}

impl MetricRegistry {
    /// Every key appears at most once.
    pub open spec fn wf(&self) -> bool {
        distinct_keys(self@)
    }

    /// An empty registry, made once at process start.
    pub fn new() -> (r: MetricRegistry)
        ensures
            r@ == Seq::<SampleModel>::empty(),
            r.wf(),
    {
        let r = MetricRegistry { samples: Vec::new() };
        proof {
            assert(r@ =~= Seq::<SampleModel>::empty());
        }
        r
    }

    /// The stored samples, in storage order.
    pub fn samples(&self) -> (r: &Vec<MetricSample>)
        ensures
            models(r@) == self@,
    {
        &self.samples
    }

    /// Write one gauge: supersede the value of an existing key in place, or
    /// append a new key.
    #[verifier::loop_isolation(false)]
    pub fn set(&mut self, sample: MetricSample)
        requires
            old(self).wf(),
        ensures
            final(self)@ == spec_set(old(self)@, sample.model()),
            final(self).wf(),
    {
        let ghost key = sample.model().key();
        let n = self.samples.len();
        for i in 0..n
            invariant
                self@ == old(self)@,
                forall|j: int| 0 <= j < i ==> #[trigger] self@[j].key() != key,
        {
            proof {
                assert(self@[i as int] == self.samples@[i as int].model());
                assert(key == (sample.name@, label_views(sample.labels@)));
            }
            let same_name = self.samples[i].name == sample.name;
            if same_name && labels_eq(&self.samples[i].labels, &sample.labels) {
                proof {
                    assert(self@[i as int].key() == key);
                    lemma_find_characterizes(self@, key, i as int);
                    lemma_set_distinct(old(self)@, sample.model());
                }
                self.samples.set(i, sample);
                proof {
                    assert(self@ =~= spec_set(old(self)@, sample.model()));
                }
                return ;
            }
        }
        proof {
            lemma_find_absent(self@, key);
            lemma_set_distinct(old(self)@, sample.model());
        }
        self.samples.push(sample);
        proof {
            assert(self@ =~= spec_set(old(self)@, sample.model()));
        }
    }
}

} // verus!
