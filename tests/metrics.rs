use system_monitor::error::SystemMonitorError;
use system_monitor::metrics::{
    AnomalySeverity, MetricId, MetricsCalculator, PerformanceBenchmark, TrendDirection, FULL_SCALE,
};
use system_monitor::stats::{integer_sqrt, summarize};

#[test]
fn test_metrics_calculator() {
    let mut calculator = MetricsCalculator::new(100, 3600 * 1000);

    calculator.add_cpu_data(2500, 0);
    calculator.add_cpu_data(3000, 1);
    calculator.add_cpu_data(3500, 2);

    let stats = calculator.calculate_cpu_stats(10);
    assert_eq!(stats.sample_count, 3);
    assert_eq!(stats.average, 3000);
    assert_eq!(stats.min, 2500);
    assert_eq!(stats.max, 3500);
}

#[test]
fn three_samples_give_full_summary() {
    let mut calculator = MetricsCalculator::new(100, 3600 * 1000);
    calculator.add_cpu_data(2500, 0);
    calculator.add_cpu_data(3000, 1);
    calculator.add_cpu_data(3500, 2);
    let stats = calculator.calculate_cpu_stats(10);
    assert_eq!(stats.current, 3500);
    assert_eq!(stats.average, 3000);
    assert_eq!(stats.min, 2500);
    assert_eq!(stats.max, 3500);
    assert_eq!(stats.median, 3000);
    assert_eq!(stats.sample_count, 3);
    // variance (250000 + 0 + 250000) / 3 = 166666, root 408
    assert_eq!(stats.std_deviation, 408);
}

#[test]
fn empty_history_gives_zero_summary() {
    let mut calculator = MetricsCalculator::new(10, 1000);
    let stats = calculator.calculate_memory_stats(10);
    assert_eq!(stats.sample_count, 0);
    assert_eq!(stats.current, 0);
    assert_eq!(stats.average, 0);
    assert_eq!(stats.std_deviation, 0);
}

#[test]
fn summary_of_textbook_series() {
    let stats = summarize(&vec![2, 4, 4, 4, 5, 5, 7, 9]);
    assert_eq!(stats.average, 5);
    assert_eq!(stats.std_deviation, 2);
    assert_eq!(stats.median, 4);
    assert_eq!(stats.min, 2);
    assert_eq!(stats.max, 9);
    assert_eq!(stats.current, 9);
}

#[test]
fn summary_is_ordered_for_unsorted_input() {
    let stats = summarize(&vec![70, 10, 40, 90, 20, 55]);
    assert!(stats.min <= stats.median && stats.median <= stats.max);
    assert!(stats.min <= stats.average && stats.average <= stats.max);
    assert_eq!(stats.median, 47);
    assert_eq!(stats.average, 47);
    assert_eq!(stats.current, 55);
}

#[test]
fn constant_series_has_zero_deviation() {
    let stats = summarize(&vec![4200; 7]);
    assert_eq!(stats.min, 4200);
    assert_eq!(stats.max, 4200);
    assert_eq!(stats.median, 4200);
    assert_eq!(stats.average, 4200);
    assert_eq!(stats.std_deviation, 0);
}

#[test]
fn integer_square_roots() {
    assert_eq!(integer_sqrt(0), 0);
    assert_eq!(integer_sqrt(15), 3);
    assert_eq!(integer_sqrt(16), 4);
    assert_eq!(integer_sqrt(u64::MAX), 4294967295);
}

#[test]
fn constant_series_has_no_anomalies() {
    let mut calculator = MetricsCalculator::new(100, 3600 * 1000);
    for i in 0..10u64 {
        calculator.add_cpu_data(5000, i * 1000);
    }
    assert!(calculator.detect_cpu_anomalies(100, 10).is_empty());
}

#[test]
fn spike_is_reported_with_severity() {
    let mut calculator = MetricsCalculator::new(100, 3600 * 1000);
    for i in 0..9u64 {
        calculator.add_cpu_data(1000, i);
    }
    calculator.add_cpu_data(9000, 9);
    // average 1800, deviation isqrt((9 * 800^2 + 7200^2) / 10) = 2400
    let stats = calculator.calculate_cpu_stats(10);
    assert_eq!(stats.average, 1800);
    assert_eq!(stats.std_deviation, 2400);
    let anomalies = calculator.detect_cpu_anomalies(100, 10);
    assert_eq!(anomalies.len(), 1);
    assert_eq!(anomalies[0].usage, 9000);
    assert_eq!(anomalies[0].timestamp, 9);
    assert_eq!(anomalies[0].threshold, 4200);
    assert_eq!(anomalies[0].severity, AnomalySeverity::High);
    let medium = calculator.detect_cpu_anomalies(250, 10);
    // threshold 1800 + 2400 * 2.5 = 7800; 9000 is not above 11700
    assert_eq!(medium[0].threshold, 7800);
    assert_eq!(medium[0].severity, AnomalySeverity::Medium);
}

#[test]
fn short_history_has_flat_trend() {
    let mut calculator = MetricsCalculator::new(100, 3600 * 1000);
    let empty = calculator.predict_load_trend(60, 10);
    assert_eq!(empty.cpu_trend, 0);
    assert_eq!(empty.cpu_predicted, empty.cpu_current);
    calculator.add_cpu_data(4000, 5);
    let one = calculator.predict_load_trend(60, 10);
    assert_eq!(one.cpu_trend, 0);
    assert_eq!(one.cpu_current, 4000);
    assert_eq!(one.cpu_predicted, 4000);
}

#[test]
fn rising_series_is_extrapolated_and_clamped() {
    let mut calculator = MetricsCalculator::new(100, 3600 * 1000);
    calculator.add_cpu_data(1000, 0);
    calculator.add_cpu_data(2000, 1000);
    calculator.add_memory_data(5000, 0);
    calculator.add_memory_data(4000, 1000);
    let trend = calculator.predict_load_trend(2, 1000);
    // one unit per millisecond
    assert_eq!(trend.cpu_trend, 3_600_000);
    assert_eq!(trend.cpu_predicted, 4000);
    assert_eq!(trend.memory_trend, -3_600_000);
    assert_eq!(trend.memory_predicted, 2000);
    let far = calculator.predict_load_trend(10, 1000);
    assert_eq!(far.cpu_predicted, FULL_SCALE);
    assert_eq!(far.memory_predicted, 0);
}

#[test]
fn confidence_mixes_stability_and_sample_count() {
    let mut calculator = MetricsCalculator::new(100, 3600 * 1000);
    calculator.add_cpu_data(5000, 0);
    calculator.add_cpu_data(5000, 1);
    // cpu stability 10000, memory stability 10000, adequacy 2 * 100
    assert_eq!(calculator.predict_load_trend(1, 1).confidence, (10000 + 10000 + 200) / 3);
}

#[test]
fn history_is_bounded_by_count() {
    let mut calculator = MetricsCalculator::new(3, 3600 * 1000);
    for i in 0..5u32 {
        calculator.add_cpu_data(i * 100, i as u64);
    }
    assert_eq!(calculator.get_cpu_history(10), vec![200, 300, 400]);
}

#[test]
fn history_is_bounded_by_age() {
    let mut calculator = MetricsCalculator::new(100, 1000);
    calculator.add_memory_data(1, 0);
    calculator.add_memory_data(2, 500);
    calculator.add_memory_data(3, 1000);
    assert_eq!(calculator.get_memory_history(1000), vec![1, 2, 3]);
    calculator.add_memory_data(4, 1600);
    assert_eq!(calculator.get_memory_history(1600), vec![3, 4]);
}

#[test]
fn clock_going_back_keeps_order() {
    let mut calculator = MetricsCalculator::new(100, 1000);
    calculator.add_cpu_data(1, 5000);
    calculator.add_cpu_data(2, 10);
    calculator.add_cpu_data(3, 5900);
    assert_eq!(calculator.get_cpu_history(5900), vec![1, 2, 3]);
}

#[test]
fn zero_capacity_keeps_nothing() {
    let mut calculator = MetricsCalculator::new(0, 1000);
    calculator.add_disk_data(vec![10, 20], 0);
    calculator.add_cpu_data(10, 0);
    assert!(calculator.get_cpu_history(10).is_empty());
}

#[test]
fn performance_change_against_baseline() {
    let benchmark = PerformanceBenchmark::new(2000, 5000, 1000);
    let up = benchmark.calculate_performance_change(2300, 5000, 4000);
    assert_eq!(up.cpu_change_percent, Some(1500));
    assert_eq!(up.memory_change_percent, Some(0));
    assert_eq!(up.time_elapsed_ms, 3000);
    assert_eq!(up.overall_trend, TrendDirection::Increasing);
    let down = benchmark.calculate_performance_change(2000, 4000, 500);
    assert_eq!(down.memory_change_percent, Some(-2000));
    assert_eq!(down.time_elapsed_ms, 0);
    assert_eq!(down.overall_trend, TrendDirection::Decreasing);
    let steady = benchmark.calculate_performance_change(2200, 4500, 2000);
    assert_eq!(steady.overall_trend, TrendDirection::Stable);
    let odd = benchmark.calculate_performance_change(1999, 5000, 2000);
    assert_eq!(odd.cpu_change_percent, Some(-5));
    let from_zero = PerformanceBenchmark::new(0, 5000, 0).calculate_performance_change(1, 5000, 0);
    assert_eq!(from_zero.cpu_change_percent, None);
    assert_eq!(from_zero.overall_trend, TrendDirection::Increasing);
}

#[test]
fn stats_by_metric_identifier() {
    let mut calculator = MetricsCalculator::new(10, 10_000);
    assert!(matches!(
        calculator.calculate_stats(MetricId::Disk(0), 10),
        Err(SystemMonitorError::InvalidMetric(_))
    ));
    calculator.add_disk_data(vec![1000, 9000], 0);
    calculator.add_disk_data(vec![3000, 7000], 1);
    let first = calculator.calculate_stats(MetricId::Disk(0), 10).unwrap();
    assert_eq!(first.average, 2000);
    assert_eq!(first.current, 3000);
    assert_eq!(calculator.calculate_stats(MetricId::Disk(1), 10).unwrap().min, 7000);
    assert!(calculator.calculate_stats(MetricId::Disk(2), 10).is_err());
    calculator.add_disk_data(vec![5000], 2);
    assert!(calculator.calculate_stats(MetricId::Disk(1), 10).is_err());
    assert_eq!(calculator.calculate_stats(MetricId::Cpu, 10).unwrap().sample_count, 0);
    calculator.add_memory_data(4000, 3);
    assert_eq!(calculator.calculate_stats(MetricId::Memory, 10).unwrap().current, 4000);
}

#[test]
fn points_age_out_by_query_time() {
    let mut calculator = MetricsCalculator::new(10, 5);
    calculator.add_cpu_data(1, 0);
    assert_eq!(calculator.get_cpu_history(3), vec![1]);
    assert!(calculator.get_cpu_history(100).is_empty());
    assert_eq!(calculator.calculate_cpu_stats(100).sample_count, 0);
    calculator.add_cpu_data(7, 200);
    assert_eq!(calculator.predict_load_trend(1, 205).cpu_current, 7);
    assert!(calculator.detect_cpu_anomalies(0, 206).is_empty());
}
