use metrics_exporter::numfmt::{i128_string, seconds_string, u128_string};
use metrics_exporter::registry::{MetricRegistry, MetricSample, MetricValue};
use metrics_exporter::stats::{clamp_timestamp_nanos, now_unix_nanos};

#[test]
fn whole_numbers() {
    assert_eq!(u128_string(0), "0");
    assert_eq!(u128_string(7), "7");
    assert_eq!(u128_string(42), "42");
    assert_eq!(u128_string(1_234_567_890_123), "1234567890123");
    assert_eq!(u128_string(u64::MAX as u128), "18446744073709551615");
}

#[test]
fn signed_numbers() {
    assert_eq!(i128_string(0), "0");
    assert_eq!(i128_string(-5), "-5");
    assert_eq!(i128_string(1_699_999_999), "1699999999");
    assert_eq!(i128_string(i128::MIN), format!("{}", i128::MIN));
}

#[test]
fn seconds_from_nanoseconds() {
    assert_eq!(seconds_string(0), "0");
    assert_eq!(seconds_string(2_000_000_000), "2");
    assert_eq!(seconds_string(1_500_000_000), "1.500000000");
    assert_eq!(seconds_string(1), "0.000000001");
    assert_eq!(seconds_string(-500_000_000), "-0.500000000");
    assert_eq!(seconds_string(-3_000_000_000), "-3");
}

#[test]
fn gauge_lines() {
    let mut registry = MetricRegistry::new();
    registry.set(MetricSample {
        name: String::from("last_update"),
        labels: Vec::new(),
        value: MetricValue::Signed(-1),
    });
    registry.set(MetricSample {
        name: String::from("task_queue_latency_seconds"),
        labels: Vec::new(),
        value: MetricValue::Seconds { nanos: 250_000_000 },
    });
    assert_eq!(registry.render(), "last_update -1\ntask_queue_latency_seconds 0.250000000\n");
}

#[test]
fn timestamp_clamping() {
    assert_eq!(clamp_timestamp_nanos(0), 0);
    assert_eq!(clamp_timestamp_nanos(i64::MAX as i128 + 1), i64::MAX);
    assert_eq!(clamp_timestamp_nanos(i64::MIN as i128 - 1), i64::MIN);
    assert_eq!(clamp_timestamp_nanos(123), 123);
}

#[test]
fn clock_reads_after_epoch() {
    assert!(now_unix_nanos() > 0);
}
