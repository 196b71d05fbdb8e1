use metrics_exporter::aggregate::{collect, scrape};
use metrics_exporter::gate::{check_metrics_access, AccessFilter, MetricsError};
use metrics_exporter::registry::{MetricRegistry, MetricSample, MetricValue};
use metrics_exporter::stats::{estimate_latency_nanos, pending_task_query, GlobalStats, QueueStats,
    Status, SubsystemSnapshot, Task, TaskStatusCounts};

fn all_filter() -> AccessFilter {
    AccessFilter { all_indexes_authorized: true }
}

fn scoped_filter() -> AccessFilter {
    AccessFilter { all_indexes_authorized: false }
}

fn idle_snapshot() -> SubsystemSnapshot {
    SubsystemSnapshot {
        global: GlobalStats {
            database_size: 0,
            used_database_size: 0,
            indexes: Vec::new(),
            last_update_seconds: None,
        },
        task_counts: TaskStatusCounts { counts: Vec::new() },
        is_indexing: false,
        queue: QueueStats { capacity: 0, running: 0, waiting: 0 },
        pending: Vec::new(),
        now_nanos: 1_700_000_000_000_000_000,
    }
}

#[test]
fn feature_disabled_wins_over_scope() {
    let mut registry = MetricRegistry::new();
    let r = scrape(false, &all_filter(), Ok(idle_snapshot()), &mut registry);
    assert!(matches!(r, Err(MetricsError::FeatureDisabled)));
    let r = scrape(false, &scoped_filter(), Ok(idle_snapshot()), &mut registry);
    assert!(matches!(r, Err(MetricsError::FeatureDisabled)));
    assert_eq!(registry.render(), "");
}

#[test]
fn gate_checks_feature_then_scope() {
    assert!(matches!(check_metrics_access(false, &all_filter()), Err(MetricsError::FeatureDisabled)));
    assert!(matches!(check_metrics_access(false, &scoped_filter()), Err(MetricsError::FeatureDisabled)));
    assert!(matches!(check_metrics_access(true, &scoped_filter()), Err(MetricsError::AccessDenied)));
    assert!(matches!(check_metrics_access(true, &all_filter()), Ok(())));
}

#[test]
fn scoped_filter_is_denied_with_exact_suffix() {
    let mut registry = MetricRegistry::new();
    let r = scrape(true, &scoped_filter(), Ok(idle_snapshot()), &mut registry);
    match r {
        Err(e) => {
            assert!(matches!(e, MetricsError::AccessDenied));
            let message = e.message();
            assert!(message.ends_with(
                "The API key for the `/metrics` route must allow access to all indexes."
            ));
        }
        Ok(_) => panic!("a scoped credential must be refused"),
    }
    assert_eq!(registry.render(), "");
}

#[test]
fn failed_retrieval_reports_origin_and_writes_nothing() {
    let mut registry = MetricRegistry::new();
    let r = scrape(true, &all_filter(), Err(String::from("storage unavailable")), &mut registry);
    match r {
        Err(MetricsError::Aggregation { message }) => {
            assert_eq!(message, "storage unavailable");
        }
        _ => panic!("a failed retrieval must surface the origin message"),
    }
    assert_eq!(registry.render(), "");
}

#[test]
fn idle_service_scrape() {
    let mut registry = MetricRegistry::new();
    let body = scrape(true, &all_filter(), Ok(idle_snapshot()), &mut registry).unwrap();
    assert!(body.contains("index_count 0\n"));
    assert!(body.contains("is_indexing 0\n"));
    assert!(body.contains("task_queue_latency_seconds 0\n"));
    assert!(!body.contains("index_docs_count"));
    assert!(!body.contains("last_update"));
}

#[test]
fn busy_service_scrape() {
    let now: i64 = 1_700_000_000_000_000_000;
    let snapshot = SubsystemSnapshot {
        global: GlobalStats {
            database_size: 4096,
            used_database_size: 2048,
            indexes: vec![(String::from("products"), 42)],
            last_update_seconds: Some(1_699_999_999),
        },
        task_counts: TaskStatusCounts {
            counts: vec![(
                String::from("documentAdditionOrUpdate"),
                vec![(String::from("enqueued"), 1)],
            )],
        },
        is_indexing: true,
        queue: QueueStats { capacity: 20, running: 3, waiting: 5 },
        pending: vec![Task {
            enqueued_at_nanos: now - 1_500_000_000,
            status: Status::Enqueued,
        }],
        now_nanos: now,
    };
    let mut registry = MetricRegistry::new();
    let body = scrape(true, &all_filter(), Ok(snapshot), &mut registry).unwrap();
    assert!(body.contains("database_size_bytes 4096\n"));
    assert!(body.contains("used_database_size_bytes 2048\n"));
    assert!(body.contains("index_count 1\n"));
    assert!(body.contains("index_docs_count{index=\"products\"} 42\n"));
    assert!(body.contains("nb_tasks{kind=\"documentAdditionOrUpdate\",status=\"enqueued\"} 1\n"));
    assert!(body.contains("last_update 1699999999\n"));
    assert!(body.contains("is_indexing 1\n"));
    assert!(body.contains("task_queue_latency_seconds 1.500000000\n"));
}

#[test]
fn exact_exposition_layout() {
    let now: i64 = 1_700_000_000_000_000_000;
    let snapshot = SubsystemSnapshot {
        global: GlobalStats {
            database_size: 4096,
            used_database_size: 2048,
            indexes: vec![(String::from("products"), 42)],
            last_update_seconds: Some(1_699_999_999),
        },
        task_counts: TaskStatusCounts {
            counts: vec![(
                String::from("documentAdditionOrUpdate"),
                vec![(String::from("enqueued"), 1)],
            )],
        },
        is_indexing: true,
        queue: QueueStats { capacity: 20, running: 3, waiting: 5 },
        pending: vec![Task {
            enqueued_at_nanos: now - 1_500_000_000,
            status: Status::Enqueued,
        }],
        now_nanos: now,
    };
    let mut registry = MetricRegistry::new();
    let body = scrape(true, &all_filter(), Ok(snapshot), &mut registry).unwrap();
    assert_eq!(
        body,
        "database_size_bytes 4096\n\
         used_database_size_bytes 2048\n\
         index_count 1\n\
         search_queue_size 20\n\
         searches_running 3\n\
         searches_waiting_to_be_processed 5\n\
         index_docs_count{index=\"products\"} 42\n\
         nb_tasks{kind=\"documentAdditionOrUpdate\",status=\"enqueued\"} 1\n\
         last_update 1699999999\n\
         is_indexing 1\n\
         task_queue_latency_seconds 1.500000000\n"
    );
}

#[test]
fn admission_queue_gauges() {
    let mut snapshot = idle_snapshot();
    snapshot.queue = QueueStats { capacity: 20, running: 3, waiting: 5 };
    let mut registry = MetricRegistry::new();
    let body = scrape(true, &all_filter(), Ok(snapshot), &mut registry).unwrap();
    assert!(body.contains("search_queue_size 20\n"));
    assert!(body.contains("searches_running 3\n"));
    assert!(body.contains("searches_waiting_to_be_processed 5\n"));
}

#[test]
fn identical_snapshots_render_identically() {
    let mut snapshot = idle_snapshot();
    snapshot.global.indexes = vec![(String::from("films"), 7), (String::from("books"), 9)];
    let mut registry = MetricRegistry::new();
    collect(&mut registry, &snapshot);
    let first = registry.render();
    collect(&mut registry, &snapshot);
    let second = registry.render();
    assert_eq!(first, second);
}

#[test]
fn keys_not_revisited_retain_their_value() {
    let mut registry = MetricRegistry::new();
    let mut snapshot = idle_snapshot();
    snapshot.global.indexes = vec![(String::from("films"), 7)];
    collect(&mut registry, &snapshot);
    assert!(registry.render().contains("index_docs_count{index=\"films\"} 7\n"));
    snapshot.global.indexes = Vec::new();
    collect(&mut registry, &snapshot);
    let body = registry.render();
    assert!(body.contains("index_docs_count{index=\"films\"} 7\n"));
    assert!(body.contains("index_count 0\n"));
}

#[test]
fn a_pass_supersedes_revisited_keys() {
    let mut registry = MetricRegistry::new();
    let mut snapshot = idle_snapshot();
    snapshot.global.indexes = vec![(String::from("films"), 7)];
    collect(&mut registry, &snapshot);
    snapshot.global.indexes = vec![(String::from("films"), 11)];
    collect(&mut registry, &snapshot);
    let body = registry.render();
    assert!(body.contains("index_docs_count{index=\"films\"} 11\n"));
    assert!(!body.contains("index_docs_count{index=\"films\"} 7\n"));
}

#[test]
fn latency_defaults_to_zero_without_pending_tasks() {
    assert_eq!(estimate_latency_nanos(&Vec::new(), 1_700_000_000_000_000_000), 0);
}

#[test]
fn latency_is_now_minus_enqueued() {
    let t: i64 = 1_700_000_000_000_000_000;
    let n: i64 = t + 2_250_000_000;
    let tasks = vec![Task { enqueued_at_nanos: t, status: Status::Enqueued }];
    assert_eq!(estimate_latency_nanos(&tasks, n), 2_250_000_000);
}

#[test]
fn latency_query_shape() {
    let q = pending_task_query();
    assert_eq!(q.limit, Some(1));
    assert_eq!(q.reverse, Some(true));
    let statuses = q.statuses.unwrap();
    assert_eq!(statuses.len(), 2);
    assert!(matches!(statuses[0], Status::Enqueued));
    assert!(matches!(statuses[1], Status::Processing));
}

#[test]
fn registry_writes_in_place() {
    let mut registry = MetricRegistry::new();
    registry.set(MetricSample {
        name: String::from("a"),
        labels: Vec::new(),
        value: MetricValue::Whole(1),
    });
    registry.set(MetricSample {
        name: String::from("b"),
        labels: Vec::new(),
        value: MetricValue::Whole(2),
    });
    registry.set(MetricSample {
        name: String::from("a"),
        labels: Vec::new(),
        value: MetricValue::Whole(3),
    });
    assert_eq!(registry.render(), "a 3\nb 2\n");
}

#[test]
fn label_lists_distinguish_keys() {
    let mut registry = MetricRegistry::new();
    registry.set(MetricSample {
        name: String::from("m"),
        labels: vec![(String::from("x"), String::from("1"))],
        value: MetricValue::Whole(1),
    });
    registry.set(MetricSample {
        name: String::from("m"),
        labels: vec![(String::from("x"), String::from("2"))],
        value: MetricValue::Whole(2),
    });
    assert_eq!(registry.render(), "m{x=\"1\"} 1\nm{x=\"2\"} 2\n");
}
