//! The stated laws of the pipeline: what one aggregation pass leaves in
//! the gauge store, and that feeding identical snapshots to two
//! consecutive passes leaves the store—and so the rendered text—unchanged.

use crate::aggregate::{index_sample, spec_apply, spec_fixed_samples, spec_index_samples,
    spec_pass_samples, spec_status_samples, spec_task_samples, spec_update_samples, task_sample};
use crate::registry::{distinct_keys, lemma_find_absent, lemma_find_in_range, lemma_set_lookup,
    lemma_set_noop, spec_find, spec_lookup, spec_set, MetricValue, SampleModel};
use crate::render::{spec_line, spec_render};
use crate::stats::SubsystemSnapshot;
use vstd::prelude::*;

verus! {

/// Writes none of which touch `k` leave the value under `k` as it was.
proof fn lemma_apply_lookup_untouched(
    s: Seq<SampleModel>,
    w: Seq<SampleModel>,
    k: (Seq<char>, Seq<(Seq<char>, Seq<char>)>),
)
    requires
        forall|i: int| 0 <= i < w.len() ==> (#[trigger] w[i].key()) != k,
    ensures
        spec_lookup(spec_apply(s, w), k) == spec_lookup(s, k),
    decreases w.len(),
{
    if w.len() > 0 {
        lemma_set_lookup(s, w[0], k);
        assert(forall|i: int|
            0 <= i < w.drop_first().len() ==> (#[trigger] w.drop_first()[i].key()) == w[i
                + 1].key());
        lemma_apply_lookup_untouched(spec_set(s, w[0]), w.drop_first(), k);
    }
}

/// After writes with pairwise distinct keys, each written key holds its
/// written value.
proof fn lemma_apply_lookup_written(s: Seq<SampleModel>, w: Seq<SampleModel>, i: int)
    requires
        distinct_keys(w),
        0 <= i < w.len(),
    ensures
        spec_lookup(spec_apply(s, w), w[i].key()) == Some(w[i].value),
    decreases w.len(),
{
    assert(forall|a: int|
        0 <= a < w.drop_first().len() ==> #[trigger] w.drop_first()[a] == w[a + 1]);
    if i == 0 {
        lemma_set_lookup(s, w[0], w[0].key());
        lemma_apply_lookup_untouched(spec_set(s, w[0]), w.drop_first(), w[0].key());
    } else {
        lemma_apply_lookup_written(spec_set(s, w[0]), w.drop_first(), i - 1);
    }
}

/// Writes that restate the stored values change nothing.
proof fn lemma_apply_noop(t: Seq<SampleModel>, w: Seq<SampleModel>)
    requires
        forall|i: int|
            0 <= i < w.len() ==> spec_lookup(t, (#[trigger] w[i]).key()) == Some(w[i].value),
    ensures
        spec_apply(t, w) == t,
    decreases w.len(),
{
    if w.len() > 0 {
        lemma_set_noop(t, w[0]);
        assert(forall|a: int|
            0 <= a < w.drop_first().len() ==> #[trigger] w.drop_first()[a] == w[a + 1]);
        lemma_apply_noop(t, w.drop_first());
        assert(spec_apply(t, w) == spec_apply(spec_set(t, w[0]), w.drop_first()));
    }
}

/// Applying writes with pairwise distinct keys twice is the same as
/// applying them once.
proof fn lemma_apply_idempotent(s: Seq<SampleModel>, w: Seq<SampleModel>)
    requires
        distinct_keys(w),
    ensures
        spec_apply(spec_apply(s, w), w) == spec_apply(s, w),
{
    let t = spec_apply(s, w);
    assert forall|i: int|
        0 <= i < w.len() implies spec_lookup(t, (#[trigger] w[i]).key()) == Some(w[i].value) by {
        lemma_apply_lookup_written(s, w, i);
    }
    lemma_apply_noop(t, w);
}

/// The eleven metric names, in write order of a pass.
pub open spec fn all_metric_names() -> Seq<Seq<char>> {
    seq![
        "database_size_bytes"@,
        "used_database_size_bytes"@,
        "index_count"@,
        "search_queue_size"@,
        "searches_running"@,
        "searches_waiting_to_be_processed"@,
        "index_docs_count"@,
        "nb_tasks"@,
        "last_update"@,
        "is_indexing"@,
        "task_queue_latency_seconds"@,
    ]
}

/// The eleven metric names are pairwise distinct.
pub proof fn lemma_metric_names_distinct()
    ensures
        forall|i: int, j: int|
            0 <= i < j < all_metric_names().len() ==> all_metric_names()[i]
                != all_metric_names()[j],
{
    reveal_strlit("database_size_bytes");
    reveal_strlit("used_database_size_bytes");
    reveal_strlit("index_count");
    reveal_strlit("search_queue_size");
    reveal_strlit("searches_running");
    reveal_strlit("searches_waiting_to_be_processed");
    reveal_strlit("index_docs_count");
    reveal_strlit("nb_tasks");
    reveal_strlit("last_update");
    reveal_strlit("is_indexing");
    reveal_strlit("task_queue_latency_seconds");
    assert(all_metric_names()[0] == "database_size_bytes"@ && ("database_size_bytes"@).len()
        == 19);
    assert(all_metric_names()[1] == "used_database_size_bytes"@
        && ("used_database_size_bytes"@).len() == 24);
    assert(all_metric_names()[2] == "index_count"@ && ("index_count"@).len() == 11);
    assert(all_metric_names()[3] == "search_queue_size"@ && ("search_queue_size"@).len() == 17);
    assert(all_metric_names()[4] == "searches_running"@ && ("searches_running"@).len() == 16);
    assert(all_metric_names()[5] == "searches_waiting_to_be_processed"@
        && ("searches_waiting_to_be_processed"@).len() == 32);
    assert(all_metric_names()[6] == "index_docs_count"@ && ("index_docs_count"@).len() == 16);
    assert(all_metric_names()[7] == "nb_tasks"@ && ("nb_tasks"@).len() == 8);
    assert(all_metric_names()[8] == "last_update"@ && ("last_update"@).len() == 11);
    assert(all_metric_names()[9] == "is_indexing"@ && ("is_indexing"@).len() == 11);
    assert(all_metric_names()[10] == "task_queue_latency_seconds"@
        && ("task_queue_latency_seconds"@).len() == 26);
    assert(("searches_running"@)[0] == 's' && ("index_docs_count"@)[0] == 'i');
    assert(("index_count"@)[1] == 'n' && ("last_update"@)[1] == 'a' && ("is_indexing"@)[1] == 's');
    assert forall|i: int, j: int|
        0 <= i < j < all_metric_names().len() implies all_metric_names()[i]
        != all_metric_names()[j] by {
        let a = all_metric_names()[i];
        let b = all_metric_names()[j];
        if a.len() == b.len() {
            assert(a[0] != b[0] || a[1] != b[1]);
        }
    }
}

/// The per-index gauges, element by element.
proof fn lemma_index_elems(ix: Seq<(String, u64)>)
    ensures
        spec_index_samples(ix).len() == ix.len(),
        forall|i: int|
            0 <= i < ix.len() ==> #[trigger] spec_index_samples(ix)[i] == index_sample(ix[i]),
    decreases ix.len(),
{
    if ix.len() > 0 {
        lemma_index_elems(ix.drop_first());
        assert forall|i: int|
            0 <= i < ix.len() implies #[trigger] spec_index_samples(ix)[i] == index_sample(
            ix[i],
        ) by {
            if i > 0 {
                assert(spec_index_samples(ix)[i] == spec_index_samples(ix.drop_first())[i - 1]);
                assert(ix.drop_first()[i - 1] == ix[i]);
            }
        }
    }
}

/// The per-status gauges of one kind, element by element.
proof fn lemma_status_elems(kind: Seq<char>, sts: Seq<(String, u64)>)
    ensures
        spec_status_samples(kind, sts).len() == sts.len(),
        forall|i: int|
            0 <= i < sts.len() ==> #[trigger] spec_status_samples(kind, sts)[i] == task_sample(
                kind,
                sts[i],
            ),
    decreases sts.len(),
{
    if sts.len() > 0 {
        lemma_status_elems(kind, sts.drop_first());
        assert forall|i: int|
            0 <= i < sts.len() implies #[trigger] spec_status_samples(kind, sts)[i] == task_sample(
            kind,
            sts[i],
        ) by {
            if i > 0 {
                assert(spec_status_samples(kind, sts)[i] == spec_status_samples(
                    kind,
                    sts.drop_first(),
                )[i - 1]);
                assert(sts.drop_first()[i - 1] == sts[i]);
            }
        }
    }
}

/// Every task gauge is named `nb_tasks`, carries exactly a kind and a
/// status label, and its kind is one the counts list.  When no kind equals
/// `x`, no task gauge carries the kind `x`.
proof fn lemma_task_shape(ks: Seq<(String, Vec<(String, u64)>)>, x: Seq<char>)
    requires
        forall|a: int| 0 <= a < ks.len() ==> (#[trigger] ks[a].0@) != x,
    ensures
        forall|i: int|
            0 <= i < spec_task_samples(ks).len() ==> (#[trigger] spec_task_samples(ks)[i]).name
                == "nb_tasks"@ && spec_task_samples(ks)[i].labels.len() == 2 && spec_task_samples(
                ks,
            )[i].labels[0].0 == "kind"@ && spec_task_samples(ks)[i].labels[0].1 != x,
    decreases ks.len(),
{
    if ks.len() > 0 {
        lemma_status_elems(ks[0].0@, ks[0].1@);
        assert(forall|a: int|
            0 <= a < ks.drop_first().len() ==> (#[trigger] ks.drop_first()[a].0@) == ks[a + 1].0@);
        lemma_task_shape(ks.drop_first(), x);
        let head = spec_status_samples(ks[0].0@, ks[0].1@);
        assert forall|i: int|
            0 <= i < spec_task_samples(ks).len() implies (#[trigger] spec_task_samples(
            ks,
        )[i]).name == "nb_tasks"@ && spec_task_samples(ks)[i].labels.len() == 2
            && spec_task_samples(ks)[i].labels[0].0 == "kind"@ && spec_task_samples(
            ks,
        )[i].labels[0].1 != x by {
            if i < head.len() {
                assert(spec_task_samples(ks)[i] == head[i]);
                assert(head[i] == task_sample(ks[0].0@, ks[0].1@[i]));
            } else {
                assert(spec_task_samples(ks)[i] == spec_task_samples(ks.drop_first())[i
                    - head.len()]);
            }
        }
    }
}

/// With distinct kinds and distinct statuses per kind, the task gauges
/// carry pairwise distinct keys.
proof fn lemma_task_distinct(ks: Seq<(String, Vec<(String, u64)>)>)
    requires
        forall|i: int, j: int| 0 <= i < j < ks.len() ==> (#[trigger] ks[i].0@) != (
        #[trigger] ks[j].0@),
        forall|i: int, a: int, b: int|
            0 <= i < ks.len() && 0 <= a < b < (#[trigger] ks[i].1@).len()
                ==> (#[trigger] ks[i].1@[a].0@) != (#[trigger] ks[i].1@[b].0@),
    ensures
        distinct_keys(spec_task_samples(ks)),
    decreases ks.len(),
{
    if ks.len() > 0 {
        let head = spec_status_samples(ks[0].0@, ks[0].1@);
        let tail = spec_task_samples(ks.drop_first());
        lemma_status_elems(ks[0].0@, ks[0].1@);
        assert(forall|a: int|
            0 <= a < ks.drop_first().len() ==> #[trigger] ks.drop_first()[a] == ks[a + 1]);
        lemma_task_distinct(ks.drop_first());
        assert(forall|a: int|
            0 <= a < ks.drop_first().len() ==> (#[trigger] ks.drop_first()[a].0@) != ks[0].0@);
        lemma_task_shape(ks.drop_first(), ks[0].0@);
        assert forall|p: int, q: int|
            0 <= p < q < spec_task_samples(ks).len() implies (#[trigger] spec_task_samples(
            ks,
        )[p]).key() != (#[trigger] spec_task_samples(ks)[q]).key() by {
            if q < head.len() {
                assert(spec_task_samples(ks)[p] == head[p]);
                assert(spec_task_samples(ks)[q] == head[q]);
                assert(head[p] == task_sample(ks[0].0@, ks[0].1@[p]));
                assert(head[q] == task_sample(ks[0].0@, ks[0].1@[q]));
                assert(ks[0].1@[p].0@ != ks[0].1@[q].0@);
                assert(head[p].labels[1] != head[q].labels[1]);
            } else if p < head.len() {
                assert(spec_task_samples(ks)[p] == head[p]);
                assert(spec_task_samples(ks)[q] == tail[q - head.len()]);
                assert(head[p].labels[0].1 == ks[0].0@);
                assert(tail[q - head.len()].labels[0].1 != ks[0].0@);
            } else {
                assert(spec_task_samples(ks)[p] == tail[p - head.len()]);
                assert(spec_task_samples(ks)[q] == tail[q - head.len()]);
            }
        }
    }
}

/// Every task gauge is named `nb_tasks` and carries exactly a kind and a
/// status label.
proof fn lemma_task_shape0(ks: Seq<(String, Vec<(String, u64)>)>)
    ensures
        forall|i: int|
            0 <= i < spec_task_samples(ks).len() ==> (#[trigger] spec_task_samples(ks)[i]).name
                == "nb_tasks"@ && spec_task_samples(ks)[i].labels.len() == 2,
    decreases ks.len(),
{
    if ks.len() > 0 {
        lemma_status_elems(ks[0].0@, ks[0].1@);
        lemma_task_shape0(ks.drop_first());
        let head = spec_status_samples(ks[0].0@, ks[0].1@);
        assert forall|i: int|
            0 <= i < spec_task_samples(ks).len() implies (#[trigger] spec_task_samples(
            ks,
        )[i]).name == "nb_tasks"@ && spec_task_samples(ks)[i].labels.len() == 2 by {
            if i < head.len() {
                assert(spec_task_samples(ks)[i] == head[i]);
                assert(head[i] == task_sample(ks[0].0@, ks[0].1@[i]));
            } else {
                assert(spec_task_samples(ks)[i] == spec_task_samples(ks.drop_first())[i
                    - head.len()]);
            }
        }
    }
}

/// The layout of one pass's writes: the keys are pairwise distinct, the
/// per-index gauges sit at the positions after the six fixed gauges, and
/// no other write carries the per-index gauge's name.
proof fn lemma_pass_structure(snap: SubsystemSnapshot)
    requires
        snap.wf(),
    ensures
        distinct_keys(spec_pass_samples(snap)),
        spec_pass_samples(snap).len() == 6 + snap.global.indexes@.len() + spec_task_samples(
            snap.task_counts.counts@,
        ).len() + spec_update_samples(snap.global.last_update_seconds).len() + 2,
        forall|p: int|
            6 <= p < 6 + snap.global.indexes@.len() ==> #[trigger] spec_pass_samples(snap)[p]
                == index_sample(snap.global.indexes@[p - 6]),
        forall|p: int|
            0 <= p < spec_pass_samples(snap).len() && !(6 <= p < 6 + snap.global.indexes@.len())
                ==> (#[trigger] spec_pass_samples(snap)[p]).name != "index_docs_count"@,
{
    lemma_metric_names_distinct();
    let w = spec_pass_samples(snap);
    let f = spec_fixed_samples(snap);
    let ix = snap.global.indexes@;
    let isamp = spec_index_samples(ix);
    let ks = snap.task_counts.counts@;
    let t = spec_task_samples(ks);
    let u = spec_update_samples(snap.global.last_update_seconds);
    lemma_index_elems(ix);
    lemma_task_shape0(ks);
    lemma_task_distinct(ks);
    let o1 = 6int;
    let o2 = o1 + isamp.len() as int;
    let o3 = o2 + t.len() as int;
    let o4 = o3 + u.len() as int;
    assert(w.len() == o4 + 2);
    assert forall|p: int|
        6 <= p < 6 + ix.len() implies #[trigger] w[p] == index_sample(ix[p - 6]) by {
        assert(w[p] == isamp[p - 6]);
    }
    assert forall|p: int|
        0 <= p < w.len() && !(6 <= p < 6 + ix.len()) implies (#[trigger] w[p]).name
        != "index_docs_count"@ by {
        assert(all_metric_names()[6] == "index_docs_count"@);
        if p < o1 {
            assert(w[p] == f[p]);
            assert(f[p].name == all_metric_names()[p]);
            assert(all_metric_names()[p] != all_metric_names()[6]);
        } else if p < o3 {
            assert(w[p] == t[p - o2]);
            assert(w[p].name == all_metric_names()[7]);
            assert(all_metric_names()[6] != all_metric_names()[7]);
        } else if p < o4 {
            assert(w[p] == u[p - o3]);
            assert(w[p].name == all_metric_names()[8]);
            assert(all_metric_names()[6] != all_metric_names()[8]);
        } else {
            if p == o4 {
                assert(w[p].name == all_metric_names()[9]);
                assert(all_metric_names()[6] != all_metric_names()[9]);
            } else {
                assert(w[p].name == all_metric_names()[10]);
                assert(all_metric_names()[6] != all_metric_names()[10]);
            }
        }
    }
    assert forall|p: int, q: int|
        0 <= p < q < w.len() implies (#[trigger] w[p]).key() != (#[trigger] w[q]).key() by {
        let name_p = region_name_index(snap, p);
        let name_q = region_name_index(snap, q);
        lemma_region_name(snap, p);
        lemma_region_name(snap, q);
        if name_p != name_q {
            assert(all_metric_names()[name_p] != all_metric_names()[name_q]);
        } else if p < o1 {
            assert(false);
        } else if p < o2 {
            assert(w[p] == isamp[p - o1] && w[q] == isamp[q - o1]);
            assert(w[p] == index_sample(ix[p - o1]) && w[q] == index_sample(ix[q - o1]));
            assert(ix[p - o1].0@ != ix[q - o1].0@);
            assert(w[p].labels[0].1 != w[q].labels[0].1);
        } else if p < o3 {
            assert(w[p] == t[p - o2] && w[q] == t[q - o2]);
            assert(t[p - o2].key() != t[q - o2].key());
        } else if p < o4 {
            assert(false);
        } else {
            assert(false);
        }
    }
}

/// The position of a write's metric name in `all_metric_names`.
spec fn region_name_index(snap: SubsystemSnapshot, p: int) -> int {
    let lix = spec_index_samples(snap.global.indexes@).len() as int;
    let lt = spec_task_samples(snap.task_counts.counts@).len() as int;
    let lu = spec_update_samples(snap.global.last_update_seconds).len() as int;
    if p < 6 {
        p
    } else if p < 6 + lix {
        6
    } else if p < 6 + lix + lt {
        7
    } else if p < 6 + lix + lt + lu {
        8
    } else if p == 6 + lix + lt + lu {
        9
    } else {
        10
    }
}

proof fn lemma_region_name(snap: SubsystemSnapshot, p: int)
    requires
        0 <= p < spec_pass_samples(snap).len(),
    ensures
        spec_pass_samples(snap)[p].name == all_metric_names()[region_name_index(snap, p)],
        0 <= region_name_index(snap, p) <= 10,
{
    let w = spec_pass_samples(snap);
    let f = spec_fixed_samples(snap);
    let ix = snap.global.indexes@;
    let isamp = spec_index_samples(ix);
    let ks = snap.task_counts.counts@;
    let t = spec_task_samples(ks);
    let u = spec_update_samples(snap.global.last_update_seconds);
    lemma_index_elems(ix);
    lemma_task_shape0(ks);
    let o1 = 6int;
    let o2 = o1 + isamp.len() as int;
    let o3 = o2 + t.len() as int;
    let o4 = o3 + u.len() as int;
    assert(w.len() == o4 + 2);
    if p < o1 {
        assert(w[p] == f[p]);
        assert(f[p].name == all_metric_names()[p]);
    } else if p < o2 {
        assert(w[p] == isamp[p - o1]);
        assert(w[p] == index_sample(ix[p - o1]));
    } else if p < o3 {
        assert(w[p] == t[p - o2]);
    } else if p < o4 {
        assert(w[p] == u[p - o3]);
        assert(u[p - o3].name == "last_update"@);
    } else if p == o4 {
        assert(w[p].name == "is_indexing"@);
    } else {
        assert(w[p].name == "task_queue_latency_seconds"@);
    }
}

/// Two consecutive aggregation passes fed identical subsystem snapshots
/// leave the gauge store, and therefore its rendered text, exactly as the
/// first pass left them.
pub proof fn lemma_pass_idempotent(s: Seq<SampleModel>, snap: SubsystemSnapshot)
    requires
        snap.wf(),
    ensures
        spec_apply(spec_apply(s, spec_pass_samples(snap)), spec_pass_samples(snap)) == spec_apply(
            s,
            spec_pass_samples(snap),
        ),
        spec_render(spec_apply(spec_apply(s, spec_pass_samples(snap)), spec_pass_samples(snap)))
            == spec_render(spec_apply(s, spec_pass_samples(snap))),
{
    lemma_pass_structure(snap);
    lemma_apply_idempotent(s, spec_pass_samples(snap));
}

/// After one pass over a store that held no per-index gauge yet, the
/// store answers the exact document count of every index the snapshot
/// enumerates, and holds no per-index gauge for any other label list.
pub proof fn lemma_index_docs_count_exact(s: Seq<SampleModel>, snap: SubsystemSnapshot)
    requires
        snap.wf(),
        forall|j: int| 0 <= j < s.len() ==> (#[trigger] s[j]).name != "index_docs_count"@,
    ensures
        forall|i: int|
            0 <= i < snap.global.indexes@.len() ==> spec_lookup(
                spec_apply(s, spec_pass_samples(snap)),
                (#[trigger] index_sample(snap.global.indexes@[i])).key(),
            ) == Some(MetricValue::Whole(snap.global.indexes@[i].1)),
        forall|lbls: Seq<(Seq<char>, Seq<char>)>|
            (forall|i: int|
                0 <= i < snap.global.indexes@.len() ==> (#[trigger] index_sample(
                    snap.global.indexes@[i],
                )).key() != ("index_docs_count"@, lbls)) ==> spec_lookup(
                spec_apply(s, spec_pass_samples(snap)),
                ("index_docs_count"@, lbls),
            ) is None,
{
    lemma_pass_structure(snap);
    let w = spec_pass_samples(snap);
    let ix = snap.global.indexes@;
    assert forall|i: int|
        0 <= i < ix.len() implies spec_lookup(
        spec_apply(s, w),
        (#[trigger] index_sample(ix[i])).key(),
    ) == Some(MetricValue::Whole(ix[i].1)) by {
        assert(w[6 + i] == index_sample(ix[i]));
        lemma_apply_lookup_written(s, w, 6 + i);
    }
    assert forall|lbls: Seq<(Seq<char>, Seq<char>)>|
        (forall|i: int|
            0 <= i < ix.len() ==> (#[trigger] index_sample(ix[i])).key() != (
            "index_docs_count"@,
            lbls,
        )) implies spec_lookup(spec_apply(s, w), ("index_docs_count"@, lbls)) is None by {
        let k = ("index_docs_count"@, lbls);
        assert forall|p: int| 0 <= p < w.len() implies (#[trigger] w[p].key()) != k by {
            if 6 <= p < 6 + ix.len() {
                assert(w[p] == index_sample(ix[p - 6]));
            } else {
                assert(w[p].name != "index_docs_count"@);
            }
        }
        lemma_apply_lookup_untouched(s, w, k);
        assert forall|j: int| 0 <= j < s.len() implies (#[trigger] s[j].key()) != k by {
            assert(s[j].name != "index_docs_count"@);
        }
        lemma_find_absent(s, k);
    }
}

/// `u` occurs in `t` as a contiguous run.
pub open spec fn text_contains(t: Seq<char>, u: Seq<char>) -> bool {
    exists|o: int| 0 <= o && o + u.len() <= t.len() && #[trigger] t.subrange(o, o + u.len()) == u
}

/// The rendered text of a store contains the line of each of its samples.
proof fn lemma_render_contains_line(s: Seq<SampleModel>, i: int)
    requires
        0 <= i < s.len(),
    ensures
        text_contains(spec_render(s), spec_line(s[i])),
    decreases i,
{
    let head = spec_line(s[0]);
    let rest = spec_render(s.drop_first());
    assert(spec_render(s) == head + rest);
    if i == 0 {
        let ghost o: int = 0;
        assert(spec_render(s).subrange(o, o + head.len()) =~= head);
        assert(text_contains(spec_render(s), head));
    } else {
        assert(s.drop_first()[i - 1] == s[i]);
        lemma_render_contains_line(s.drop_first(), i - 1);
        let line = spec_line(s[i]);
        let o = choose|o: int|
            0 <= o && o + line.len() <= rest.len() && #[trigger] rest.subrange(o, o + line.len())
                == line;
        assert(spec_render(s).subrange(
            head.len() + o,
            head.len() + o + line.len(),
        ) =~= rest.subrange(o, o + line.len()));
        assert(text_contains(spec_render(s), line));
    }
}

/// After one pass, the rendered text contains the exact document-count
/// line of every index the snapshot enumerates.
pub proof fn lemma_rendered_output_lists_every_index(s: Seq<SampleModel>, snap: SubsystemSnapshot)
    requires
        snap.wf(),
    ensures
        forall|i: int|
            0 <= i < snap.global.indexes@.len() ==> text_contains(
                spec_render(spec_apply(s, spec_pass_samples(snap))),
                spec_line(#[trigger] index_sample(snap.global.indexes@[i])),
            ),
{
    lemma_pass_structure(snap);
    let w = spec_pass_samples(snap);
    let ix = snap.global.indexes@;
    let t = spec_apply(s, w);
    assert forall|i: int|
        0 <= i < ix.len() implies text_contains(
        spec_render(t),
        spec_line(#[trigger] index_sample(ix[i])),
    ) by {
        assert(w[6 + i] == index_sample(ix[i]));
        lemma_apply_lookup_written(s, w, 6 + i);
        let k = index_sample(ix[i]).key();
        lemma_find_in_range(t, k);
        let pos = spec_find(t, k);
        assert(t[pos].key() == k && t[pos].value == MetricValue::Whole(ix[i].1));
        assert(t[pos] =~= index_sample(ix[i]));
        lemma_render_contains_line(t, pos);
    }
}

} // verus!
