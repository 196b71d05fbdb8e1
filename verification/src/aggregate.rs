//! One aggregation pass: fold a subsystem snapshot into the gauge store,
//! one write per gauge, and the scrape pipeline around it.
//!
//! All retrievals happen before any write.  A pass whose retrieval failed
//! writes nothing, so the store keeps its last successful values whole.

use crate::gate::{check_metrics_access, AccessFilter, MetricsError};
use crate::registry::{models, spec_set, MetricRegistry, MetricSample, MetricValue, SampleModel};
use crate::render::spec_render;
use crate::stats::{spec_latency_nanos, SubsystemSnapshot};
use vstd::prelude::*;
use vstd::string::StringExecFns;

verus! {

/// A gauge with no labels.
pub open spec fn plain_sample(name: Seq<char>, v: MetricValue) -> SampleModel {
    SampleModel { name, labels: Seq::empty(), value: v }
}

/// The per-index document-count gauge of one index entry.
pub open spec fn index_sample(p: (String, u64)) -> SampleModel {
    SampleModel {
        name: "index_docs_count"@,
        labels: seq![("index"@, p.0@)],
        value: MetricValue::Whole(p.1),
    }
}

/// The task-count gauge of one kind and one status.
pub open spec fn task_sample(kind: Seq<char>, p: (String, u64)) -> SampleModel {
    SampleModel {
        name: "nb_tasks"@,
        labels: seq![("kind"@, kind), ("status"@, p.0@)],
        value: MetricValue::Whole(p.1),
    }
}

/// The six label-free gauges every pass writes first.
pub open spec fn spec_fixed_samples(s: SubsystemSnapshot) -> Seq<SampleModel> {
    seq![
        plain_sample("database_size_bytes"@, MetricValue::Whole(s.global.database_size)),
        plain_sample("used_database_size_bytes"@, MetricValue::Whole(s.global.used_database_size)),
        plain_sample("index_count"@, MetricValue::Whole(s.global.indexes@.len() as u64)),
        plain_sample("search_queue_size"@, MetricValue::Whole(s.queue.capacity as u64)),
        plain_sample("searches_running"@, MetricValue::Whole(s.queue.running as u64)),
        plain_sample(
            "searches_waiting_to_be_processed"@,
            MetricValue::Whole(s.queue.waiting as u64),
        ),
    ]
}

/// One document-count gauge per index, in snapshot order.
pub open spec fn spec_index_samples(ix: Seq<(String, u64)>) -> Seq<SampleModel>
    decreases ix.len(),
{
    if ix.len() == 0 {
        Seq::<SampleModel>::empty()
    } else {
        seq![index_sample(ix[0])] + spec_index_samples(ix.drop_first())
    }
}

/// One task-count gauge per status of one kind, in snapshot order.
pub open spec fn spec_status_samples(kind: Seq<char>, sts: Seq<(String, u64)>) -> Seq<SampleModel>
    decreases sts.len(),
{
    if sts.len() == 0 {
        Seq::<SampleModel>::empty()
    } else {
        seq![task_sample(kind, sts[0])] + spec_status_samples(kind, sts.drop_first())
    }
}

/// The task-count gauges of every kind, in snapshot order.
pub open spec fn spec_task_samples(ks: Seq<(String, Vec<(String, u64)>)>) -> Seq<SampleModel>
    decreases ks.len(),
{
    if ks.len() == 0 {
        Seq::<SampleModel>::empty()
    } else {
        spec_status_samples(ks[0].0@, ks[0].1@) + spec_task_samples(ks.drop_first())
    }
}

/// The last-update gauge, written only when an update ever happened.
pub open spec fn spec_update_samples(last: Option<i64>) -> Seq<SampleModel> {
    match last {
        Some(t) => seq![plain_sample("last_update"@, MetricValue::Signed(t))],
        None => Seq::<SampleModel>::empty(),
    }
}

/// Every gauge one pass writes, in write order.
pub open spec fn spec_pass_samples(s: SubsystemSnapshot) -> Seq<SampleModel> {
    spec_fixed_samples(s) + spec_index_samples(s.global.indexes@) + spec_task_samples(
        s.task_counts.counts@,
    ) + spec_update_samples(s.global.last_update_seconds) + seq![
        plain_sample(
            "is_indexing"@,
            MetricValue::Whole(
                if s.is_indexing {
                    1u64
                } else {
                    0u64
                },
            ),
        ),
        plain_sample(
            "task_queue_latency_seconds"@,
            MetricValue::Seconds { nanos: spec_latency_nanos(s.pending@, s.now_nanos as int) as i128 },
        ),
    ]
}

/// The store after a list of writes, first write first.
pub open spec fn spec_apply(s: Seq<SampleModel>, w: Seq<SampleModel>) -> Seq<SampleModel>
    decreases w.len(),
{
    if w.len() == 0 {
        s
    } else {
        spec_apply(spec_set(s, w[0]), w.drop_first())
    }
}

proof fn lemma_index_snoc(ix: Seq<(String, u64)>, i: int)
    requires
        0 <= i < ix.len(),
    ensures
        spec_index_samples(ix.take(i + 1)) == spec_index_samples(ix.take(i)) + seq![
            index_sample(ix[i]),
        ],
    decreases i,
{
    if i == 0 {
        assert(ix.take(1) =~= seq![ix[0]]);
        assert(ix.take(0) =~= Seq::<(String, u64)>::empty());
        assert(seq![ix[0]].drop_first() =~= Seq::<(String, u64)>::empty());
        assert(spec_index_samples(Seq::<(String, u64)>::empty()) =~= Seq::<SampleModel>::empty());
        assert(spec_index_samples(ix.take(1)) =~= spec_index_samples(ix.take(0)) + seq![
            index_sample(ix[0]),
        ]);
    } else {
        lemma_index_snoc(ix.drop_first(), i - 1);
        assert(ix.take(i + 1).drop_first() =~= ix.drop_first().take(i));
        assert(ix.take(i).drop_first() =~= ix.drop_first().take(i - 1));
        assert(ix.take(i + 1)[0] == ix[0]);
        assert(ix.take(i)[0] == ix[0]);
        assert(ix.drop_first()[i - 1] == ix[i]);
        assert(spec_index_samples(ix.take(i + 1)) =~= spec_index_samples(ix.take(i)) + seq![
            index_sample(ix[i]),
        ]);
    }
}

proof fn lemma_status_snoc(kind: Seq<char>, sts: Seq<(String, u64)>, i: int)
    requires
        0 <= i < sts.len(),
    ensures
        spec_status_samples(kind, sts.take(i + 1)) == spec_status_samples(kind, sts.take(i))
            + seq![task_sample(kind, sts[i])],
    decreases i,
{
    if i == 0 {
        assert(sts.take(1) =~= seq![sts[0]]);
        assert(sts.take(0) =~= Seq::<(String, u64)>::empty());
        assert(seq![sts[0]].drop_first() =~= Seq::<(String, u64)>::empty());
        assert(spec_status_samples(kind, Seq::<(String, u64)>::empty()) =~= Seq::<
            SampleModel,
        >::empty());
        assert(spec_status_samples(kind, sts.take(1)) =~= spec_status_samples(kind, sts.take(0))
            + seq![task_sample(kind, sts[0])]);
    } else {
        lemma_status_snoc(kind, sts.drop_first(), i - 1);
        assert(sts.take(i + 1).drop_first() =~= sts.drop_first().take(i));
        assert(sts.take(i).drop_first() =~= sts.drop_first().take(i - 1));
        assert(sts.take(i + 1)[0] == sts[0]);
        assert(sts.take(i)[0] == sts[0]);
        assert(sts.drop_first()[i - 1] == sts[i]);
        assert(spec_status_samples(kind, sts.take(i + 1)) =~= spec_status_samples(
            kind,
            sts.take(i),
        ) + seq![task_sample(kind, sts[i])]);
    }
}

proof fn lemma_task_snoc(ks: Seq<(String, Vec<(String, u64)>)>, i: int)
    requires
        0 <= i < ks.len(),
    ensures
        spec_task_samples(ks.take(i + 1)) == spec_task_samples(ks.take(i)) + spec_status_samples(
            ks[i].0@,
            ks[i].1@,
        ),
    decreases i,
{
    if i == 0 {
        assert(ks.take(1) =~= seq![ks[0]]);
        assert(ks.take(0) =~= Seq::<(String, Vec<(String, u64)>)>::empty());
        assert(ks.take(1).drop_first() =~= Seq::<(String, Vec<(String, u64)>)>::empty());
        assert(spec_task_samples(ks.take(1)) =~= spec_task_samples(ks.take(0))
            + spec_status_samples(ks[0].0@, ks[0].1@));
    } else {
        lemma_task_snoc(ks.drop_first(), i - 1);
        assert(ks.take(i + 1).drop_first() =~= ks.drop_first().take(i));
        assert(ks.take(i).drop_first() =~= ks.drop_first().take(i - 1));
        assert(ks.take(i + 1)[0] == ks[0]);
        assert(ks.take(i)[0] == ks[0]);
        assert(ks.drop_first()[i - 1] == ks[i]);
        assert(spec_task_samples(ks.take(i + 1)) =~= spec_task_samples(ks.take(i))
            + spec_status_samples(ks[i].0@, ks[i].1@));
    }
}

/// Builds the pass's writes, in write order.
#[verifier::loop_isolation(false)]
fn build_pass_writes(snap: &SubsystemSnapshot) -> (w: Vec<MetricSample>)
    ensures
        models(w@) == spec_pass_samples(*snap),
{
    let mut w: Vec<MetricSample> = Vec::new();
    w.push(
        MetricSample {
            name: String::from_str("database_size_bytes"),
            labels: Vec::new(),
            value: MetricValue::Whole(snap.global.database_size),
        },
    );
    w.push(
        MetricSample {
            name: String::from_str("used_database_size_bytes"),
            labels: Vec::new(),
            value: MetricValue::Whole(snap.global.used_database_size),
        },
    );
    w.push(
        MetricSample {
            name: String::from_str("index_count"),
            labels: Vec::new(),
            value: MetricValue::Whole(snap.global.indexes.len() as u64),
        },
    );
    w.push(
        MetricSample {
            name: String::from_str("search_queue_size"),
            labels: Vec::new(),
            value: MetricValue::Whole(snap.queue.capacity as u64),
        },
    );
    w.push(
        MetricSample {
            name: String::from_str("searches_running"),
            labels: Vec::new(),
            value: MetricValue::Whole(snap.queue.running as u64),
        },
    );
    w.push(
        MetricSample {
            name: String::from_str("searches_waiting_to_be_processed"),
            labels: Vec::new(),
            value: MetricValue::Whole(snap.queue.waiting as u64),
        },
    );
    proof {
        assert(models(w@) =~~= spec_fixed_samples(*snap));
    }
    let ghost fixed = spec_fixed_samples(*snap);
    let ghost ix = snap.global.indexes@;
    let n = snap.global.indexes.len();
    proof {
        assert(ix.take(0) =~= Seq::<(String, u64)>::empty());
        assert(models(w@) =~= fixed + spec_index_samples(ix.take(0)));
    }
    for i in 0..n
        invariant
            models(w@) == fixed + spec_index_samples(ix.take(i as int)),
    {
        let mut labels: Vec<(String, String)> = Vec::new();
        labels.push((String::from_str("index"), snap.global.indexes[i].0.clone()));
        let ghost prev = w@;
        w.push(
            MetricSample {
                name: String::from_str("index_docs_count"),
                labels,
                value: MetricValue::Whole(snap.global.indexes[i].1),
            },
        );
        proof {
            assert(w@.last().model() =~~= index_sample(ix[i as int]));
            assert(models(w@) =~= models(prev) + seq![w@.last().model()]);
            lemma_index_snoc(ix, i as int);
            assert(models(w@) =~= fixed + spec_index_samples(ix.take(i + 1)));
        }
    }
    let ghost base2 = fixed + spec_index_samples(ix);
    let ghost ks = snap.task_counts.counts@;
    proof {
        assert(ix.take(n as int) =~= ix);
        assert(ks.take(0) =~= Seq::<(String, Vec<(String, u64)>)>::empty());
        assert(models(w@) =~= base2 + spec_task_samples(ks.take(0)));
    }
    let m = snap.task_counts.counts.len();
    for i in 0..m
        invariant
            models(w@) == base2 + spec_task_samples(ks.take(i as int)),
    {
        let ghost kind = ks[i as int].0@;
        let ghost sts = ks[i as int].1@;
        let ghost outer_base = base2 + spec_task_samples(ks.take(i as int));
        let p = snap.task_counts.counts[i].1.len();
        proof {
            assert(sts.take(0) =~= Seq::<(String, u64)>::empty());
            assert(models(w@) =~= outer_base + spec_status_samples(kind, sts.take(0)));
        }
        for j in 0..p
            invariant
                models(w@) == outer_base + spec_status_samples(kind, sts.take(j as int)),
        {
            let mut labels: Vec<(String, String)> = Vec::new();
            labels.push((String::from_str("kind"), snap.task_counts.counts[i].0.clone()));
            labels.push((String::from_str("status"), snap.task_counts.counts[i].1[j].0.clone()));
            let ghost prev = w@;
            w.push(
                MetricSample {
                    name: String::from_str("nb_tasks"),
                    labels,
                    value: MetricValue::Whole(snap.task_counts.counts[i].1[j].1),
                },
            );
            proof {
                assert(w@.last().model() =~~= task_sample(kind, sts[j as int]));
                assert(models(w@) =~= models(prev) + seq![w@.last().model()]);
                lemma_status_snoc(kind, sts, j as int);
                assert(models(w@) =~= outer_base + spec_status_samples(kind, sts.take(j + 1)));
            }
        }
        proof {
            assert(sts.take(p as int) =~= sts);
            lemma_task_snoc(ks, i as int);
            assert(models(w@) =~= base2 + spec_task_samples(ks.take(i + 1)));
        }
    }
    let ghost base3 = base2 + spec_task_samples(ks);
    proof {
        assert(ks.take(m as int) =~= ks);
        assert(models(w@) =~= base3);
    }
    if let Some(t) = snap.global.last_update_seconds {
        let ghost prev = w@;
        w.push(
            MetricSample {
                name: String::from_str("last_update"),
                labels: Vec::new(),
                value: MetricValue::Signed(t),
            },
        );
        proof {
            assert(models(w@) =~= models(prev) + seq![w@.last().model()]);
            assert(models(w@) =~~= base3 + spec_update_samples(
                snap.global.last_update_seconds,
            ));
        }
    }
    let ghost base4 = base3 + spec_update_samples(snap.global.last_update_seconds);
    proof {
        assert(models(w@) =~~= base4);
    }
    let is_indexing_value: u64 = if snap.is_indexing {
        1
    } else {
        0
    };
    {
        let ghost prev = w@;
        w.push(
            MetricSample {
                name: String::from_str("is_indexing"),
                labels: Vec::new(),
                value: MetricValue::Whole(is_indexing_value),
            },
        );
        proof {
            assert(models(w@) =~= models(prev) + seq![w@.last().model()]);
        }
    }
    let latency = crate::stats::estimate_latency_nanos(&snap.pending, snap.now_nanos);
    {
        let ghost prev = w@;
        w.push(
            MetricSample {
                name: String::from_str("task_queue_latency_seconds"),
                labels: Vec::new(),
                value: MetricValue::Seconds { nanos: latency },
            },
        );
        proof {
            assert(models(w@) =~= models(prev) + seq![w@.last().model()]);
        }
    }
    proof {
        assert(models(w@) =~~= spec_pass_samples(*snap));
    }
    w
}

/// One aggregation pass: writes every gauge of the snapshot into the
/// store, in write order, superseding the stored values of the keys it
/// revisits and leaving every other key as it was.
#[verifier::loop_isolation(false)]
pub fn collect(registry: &mut MetricRegistry, snap: &SubsystemSnapshot)
    requires
        old(registry).wf(),
    ensures
        final(registry)@ == spec_apply(old(registry)@, spec_pass_samples(*snap)),
        final(registry).wf(),
{
    let mut writes = build_pass_writes(snap);
    let ghost target = spec_apply(old(registry)@, spec_pass_samples(*snap));
    while writes.len() > 0
        invariant
            registry.wf(),
            spec_apply(registry@, models(writes@)) == target,
        decreases writes.len(),
    {
        let ghost before = writes@;
        let sample = writes.remove(0);
        proof {
            assert(models(writes@) =~= models(before).drop_first());
            assert(models(before)[0] == sample.model());
        }
        registry.set(sample);
    }
}

/// The whole scrape: the feature check, the access check, then—only when
/// every retrieval succeeded—one aggregation pass and the rendered store.
/// A refused or failed scrape leaves the store untouched.
pub fn scrape(
    feature_enabled: bool,
    filter: &AccessFilter,
    fetched: Result<SubsystemSnapshot, String>,
    registry: &mut MetricRegistry,
) -> (r: Result<String, MetricsError>)
    requires
        old(registry).wf(),
    ensures
        final(registry).wf(),
        !feature_enabled ==> r == Err::<String, MetricsError>(MetricsError::FeatureDisabled)
            && final(registry)@ == old(registry)@,
        feature_enabled && !filter.all_indexes_authorized ==> r == Err::<String, MetricsError>(
            MetricsError::AccessDenied,
        ) && final(registry)@ == old(registry)@,
        feature_enabled && filter.all_indexes_authorized ==> (fetched matches Err(msg) ==> r
            == Err::<String, MetricsError>(MetricsError::Aggregation { message: msg })
            && final(registry)@ == old(registry)@),
        feature_enabled && filter.all_indexes_authorized ==> (fetched matches Ok(snap) ==> (
        final(registry)@ == spec_apply(old(registry)@, spec_pass_samples(snap)) && (r matches Ok(
            body,
        ) && body@ == spec_render(final(registry)@)))),
{
    if let Err(e) = check_metrics_access(feature_enabled, filter) {
        return Err(e);
    }
    match fetched {
        Err(message) => Err(MetricsError::Aggregation { message }),
        Ok(snap) => {
            collect(registry, &snap);
            Ok(registry.render())
        },
    }
}

} // verus!
