use bevy_benchmark_games::command::{build_args, command_result};
use bevy_benchmark_games::distribution::{PercentDelta, StatError};
use bevy_benchmark_games::metrics::{IterationMetrics, Metric, Metrics, RunPlan};
use bevy_benchmark_games::report::{delta_tone, panel_stats, report_dimensions, DeltaTone};

fn sample(cycles: u64, instructions: u64, frame_ns: u64) -> IterationMetrics {
    IterationMetrics { cpu_cycles: cycles, cpu_instructions: instructions, avg_frame_time_ns: frame_ns }
}

#[test]
fn run_of_two_iterations_of_ten_frames() {
    let plan = RunPlan::new(2, 10).unwrap();
    let mut run = Metrics::new();
    let mut elapsed = 1_000u64;
    while !plan.is_complete(&run) {
        run.record(plan.measurement(5_000, 7_000, elapsed));
        elapsed += 500;
    }
    assert_eq!(run.iterations.len(), 2);
    assert_eq!(run.iterations[0].avg_frame_time_ns, 100);
    assert_eq!(run.iterations[1].avg_frame_time_ns, 150);
    for it in &run.iterations {
        assert!(it.avg_frame_time_ns > 0);
    }
}

#[test]
fn run_plan_rejects_zero_counts() {
    assert!(RunPlan::new(0, 10).is_none());
    assert!(RunPlan::new(3, 0).is_none());
    assert_eq!(RunPlan::new(3, 4), Some(RunPlan { iterations: 3, frames: 4 }));
}

#[test]
fn columns_keep_iteration_order() {
    let mut run = Metrics::new();
    run.record(sample(3, 30, 300));
    run.record(sample(1, 10, 100));
    run.record(sample(2, 20, 200));
    assert_eq!(run.samples(Metric::CpuCycles), vec![3, 1, 2]);
    assert_eq!(run.samples(Metric::CpuInstructions), vec![30, 10, 20]);
    assert_eq!(run.samples(Metric::FrameTime), vec![300, 100, 200]);
    assert_eq!(run.iterations[1].value(Metric::CpuInstructions), 10);
}

#[test]
fn report_size_grows_with_benchmarks() {
    assert_eq!(report_dimensions(1), Some((1800, 400)));
    assert_eq!(report_dimensions(3), Some((1800, 1200)));
    assert_eq!(report_dimensions(usize::MAX), None);
}

#[test]
fn delta_tones() {
    let t = |n: i128, d: u128| delta_tone(&PercentDelta { numerator: n, denominator: d });
    assert_eq!(t(150, 100), DeltaTone::Neutral);
    assert_eq!(t(-199, 100), DeltaTone::Neutral);
    assert_eq!(t(200, 100), DeltaTone::Regression);
    assert_eq!(t(-200, 100), DeltaTone::Improvement);
    assert_eq!(t(1000, 10), DeltaTone::Regression);
    assert_eq!(t(i128::MIN + 1, 1), DeltaTone::Improvement);
    assert_eq!(t(-3, 2), DeltaTone::Neutral);
    assert_eq!(t(-4, 2), DeltaTone::Improvement);
}

#[test]
fn panel_without_baseline() {
    let mut run = Metrics::new();
    run.record(sample(10, 1, 1));
    run.record(sample(30, 1, 1));
    let p = panel_stats(&run, None, Metric::CpuCycles).unwrap();
    assert_eq!(p.domain, (10, 30));
    assert_eq!((p.current.sum(), p.current.len()), (40, 2));
    assert!(p.baseline.is_none());
    assert!(p.delta.is_none());
}

#[test]
fn panel_with_baseline_compares_means() {
    let mut run = Metrics::new();
    for c in [10, 20, 30] {
        run.record(sample(c, 0, 1));
    }
    let mut base = Metrics::new();
    for c in [10, 10, 10] {
        base.record(sample(c, 0, 1));
    }
    let p = panel_stats(&run, Some(&base), Metric::CpuCycles).unwrap();
    assert_eq!(p.domain, (10, 30));
    assert_eq!(p.delta, Some(Ok(PercentDelta { numerator: 9000, denominator: 90 })));
    let q = panel_stats(&run, Some(&base), Metric::CpuInstructions).unwrap();
    assert_eq!(q.delta, Some(Err(StatError::UndefinedStatistic)));
}

#[test]
fn panel_tone_uses_exact_means() {
    let mut run = Metrics::new();
    for c in [3, 4] {
        run.record(sample(c, 0, 1));
    }
    let mut base = Metrics::new();
    for c in [3, 3] {
        base.record(sample(c, 0, 1));
    }
    let p = panel_stats(&run, Some(&base), Metric::CpuCycles).unwrap();
    let delta = p.delta.unwrap().unwrap();
    assert_eq!(delta, PercentDelta { numerator: 200, denominator: 12 });
    assert_eq!(delta_tone(&delta), DeltaTone::Regression);
}

#[test]
fn panel_over_empty_run_is_an_error() {
    let empty = Metrics::new();
    let mut run = Metrics::new();
    run.record(sample(1, 1, 1));
    assert_eq!(panel_stats(&empty, None, Metric::FrameTime).err(), Some(StatError::EmptySamples));
    assert_eq!(panel_stats(&run, Some(&empty), Metric::FrameTime).err(), Some(StatError::EmptySamples));
}

#[test]
fn build_arguments_by_mode() {
    assert_eq!(build_args("asteroids", true), vec!["build", "--release", "--example", "asteroids"]);
    assert_eq!(
        build_args("breakout", false),
        vec!["build", "--release", "--example", "breakout", "--features", "with-graphics"]
    );
}

#[test]
fn command_result_by_status() {
    assert_eq!(command_result(true, Some(0), "out".to_string(), "err".to_string()).unwrap(), "out");
    let f = command_result(false, Some(3), "out".to_string(), "err".to_string()).unwrap_err();
    assert_eq!(f.code, Some(3));
    assert_eq!(f.stdout, "out");
    assert_eq!(f.stderr, "err");
}
