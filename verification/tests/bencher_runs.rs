use aquatic::bencher::common::{CpuDirection, CpuMode, Priority, TaskSetCpuList};
use aquatic::bencher::protocols::udp::{AquaticUdpRunner, SetConfig, UdpRunner, UdpTracker};
use aquatic::bencher::run::{extract_avg_responses, parse_u64};
use aquatic::bencher::set::{
    estimated_duration, select_sets, total_num_runs, ImplementationResults, LoadTestRunResults,
    LoadTestRunResultsFailure, LoadTestRunResultsSuccess, TrackerConfigurationResults,
};

#[test]
fn test_parse_u64() {
    assert_eq!(parse_u64(b"0"), Some(0));
    assert_eq!(parse_u64(b"12345"), Some(12345));
    assert_eq!(parse_u64(b"+7"), Some(7));
    assert_eq!(parse_u64(b"18446744073709551615"), Some(u64::MAX));
    assert_eq!(parse_u64(b"18446744073709551616"), None);
    assert_eq!(parse_u64(b""), None);
    assert_eq!(parse_u64(b"+"), None);
    assert_eq!(parse_u64(b"12a"), None);
    assert_eq!(parse_u64(b"-1"), None);
}

#[test]
fn test_extract_avg_responses() {
    let output = "Requests out: 5000/second\nAverage responses per second: 412345\nAverage responses per second: 1\n";
    assert_eq!(extract_avg_responses(output), Some(412345));
    assert_eq!(extract_avg_responses("no summary here"), None);
    assert_eq!(extract_avg_responses("Average responses per second: 99999999999999999999"), None);
}

fn runner(workers: usize, priority: Priority) -> UdpRunner {
    UdpRunner::Aquatic(AquaticUdpRunner { socket_workers: workers, use_io_uring: false, priority })
}

fn cpus() -> TaskSetCpuList {
    TaskSetCpuList::new_with_available_parallelism(8, CpuMode::Subsequent, CpuDirection::Asc, 1)
}

fn set(runners: Vec<UdpRunner>, runs: Vec<(usize, Priority)>) -> SetConfig {
    SetConfig {
        implementations: vec![(UdpTracker::Aquatic, runners)],
        load_test_runs: runs.into_iter().map(|(w, p)| (w, p, cpus())).collect(),
    }
}

#[test]
fn test_select_sets_and_count_runs() {
    let sets = vec![
        (1, set(vec![runner(1, Priority::High), runner(2, Priority::Low)], vec![(1, Priority::High), (2, Priority::Medium)])),
        (2, set(vec![runner(2, Priority::Medium)], vec![(4, Priority::High)])),
        (4, set(vec![runner(4, Priority::High)], vec![(8, Priority::Low)])),
    ];

    assert_eq!(total_num_runs(&sets), 2 * 2 + 1 + 1);

    let selected = select_sets(sets, Some(1), Some(2), Priority::Medium);
    assert_eq!(selected.len(), 2);
    assert_eq!(selected[0].0, 1);
    assert_eq!(selected[0].1.implementations[0].1.len(), 1);
    assert_eq!(selected[0].1.load_test_runs.len(), 2);
    assert_eq!(selected[1].0, 2);
    assert_eq!(total_num_runs(&selected), 2 + 1);

    let none = select_sets(selected, None, None, Priority::High);
    assert_eq!(total_num_runs(&none), 1);
}

#[test]
fn test_estimated_duration() {
    // 100 runs of 30 seconds take 100 * 37 s = 61 minutes 40 seconds
    assert_eq!(estimated_duration(100, 30), (1, 1));
    assert_eq!(estimated_duration(0, 30), (0, 0));
    assert_eq!(estimated_duration(97, 53), (1, 37));
}

fn success(average_responses: u64) -> LoadTestRunResults {
    LoadTestRunResults::Success(LoadTestRunResultsSuccess {
        average_responses,
        tracker_keys: Vec::new(),
        tracker_info: String::new(),
        tracker_vcpus: cpus(),
        load_test_keys: Vec::new(),
        load_test_vcpus: cpus(),
    })
}

fn failure() -> LoadTestRunResults {
    LoadTestRunResults::Failure(LoadTestRunResultsFailure {
        tracker_keys: Vec::new(),
        tracker_vcpus: cpus(),
        load_test_keys: Vec::new(),
        load_test_vcpus: cpus(),
    })
}

#[test]
fn test_best_result() {
    let results = ImplementationResults {
        name: "aquatic_udp".into(),
        configurations: vec![
            TrackerConfigurationResults { load_tests: vec![success(10), failure(), success(30)] },
            TrackerConfigurationResults { load_tests: vec![failure(), success(30), success(20)] },
            TrackerConfigurationResults { load_tests: vec![failure()] },
        ],
    };
    assert_eq!(results.configurations[0].best_result(), Some(2));
    assert_eq!(results.configurations[2].best_result(), None);
    // The first of equal results wins
    assert_eq!(results.best_result(), Some((0, 2)));

    let failed = ImplementationResults {
        name: "x".into(),
        configurations: vec![TrackerConfigurationResults { load_tests: vec![failure()] }],
    };
    assert_eq!(failed.best_result(), None);
}
