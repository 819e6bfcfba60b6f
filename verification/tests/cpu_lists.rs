use aquatic::bencher::common as bencher;
use aquatic::load_tester::common::{
    simple_load_test_runs, CpuDirection, CpuMode, TaskSetCpuIndicator, TaskSetCpuList,
};

#[test]
fn test_task_set_cpu_list_split_asc() {
    let f = TaskSetCpuList::new_with_available_parallelism;

    assert_eq!(
        f(8, CpuMode::Split, CpuDirection::Asc, 1).as_cpu_list(),
        "0,4"
    );
    assert_eq!(
        f(8, CpuMode::Split, CpuDirection::Asc, 2).as_cpu_list(),
        "0-1,4-5"
    );
    assert_eq!(
        f(8, CpuMode::Split, CpuDirection::Asc, 4).as_cpu_list(),
        "0-3,4-7"
    );
    assert_eq!(
        f(8, CpuMode::Split, CpuDirection::Asc, 8).as_cpu_list(),
        "0-3,4-7"
    );
    assert_eq!(
        f(8, CpuMode::Split, CpuDirection::Asc, 9).as_cpu_list(),
        "0-3,4-7"
    );
}

#[test]
fn test_task_set_cpu_list_split_desc() {
    let f = TaskSetCpuList::new_with_available_parallelism;

    assert_eq!(
        f(8, CpuMode::Split, CpuDirection::Desc, 1).as_cpu_list(),
        "3,7"
    );
    assert_eq!(
        f(8, CpuMode::Split, CpuDirection::Desc, 2).as_cpu_list(),
        "2-3,6-7"
    );
    assert_eq!(
        f(8, CpuMode::Split, CpuDirection::Desc, 4).as_cpu_list(),
        "0-3,4-7"
    );
    assert_eq!(
        f(8, CpuMode::Split, CpuDirection::Desc, 8).as_cpu_list(),
        "0-3,4-7"
    );
    assert_eq!(
        f(8, CpuMode::Split, CpuDirection::Desc, 9).as_cpu_list(),
        "0-3,4-7"
    );
}

#[test]
fn test_task_set_cpu_list_all_asc() {
    let f = TaskSetCpuList::new_with_available_parallelism;

    assert_eq!(f(8, CpuMode::All, CpuDirection::Asc, 1).as_cpu_list(), "0");
    assert_eq!(
        f(8, CpuMode::All, CpuDirection::Asc, 2).as_cpu_list(),
        "0-1"
    );
    assert_eq!(
        f(8, CpuMode::All, CpuDirection::Asc, 4).as_cpu_list(),
        "0-3"
    );
    assert_eq!(
        f(8, CpuMode::All, CpuDirection::Asc, 8).as_cpu_list(),
        "0-7"
    );
    assert_eq!(
        f(8, CpuMode::All, CpuDirection::Asc, 9).as_cpu_list(),
        "0-7"
    );
}

#[test]
fn test_task_set_cpu_list_all_desc() {
    let f = TaskSetCpuList::new_with_available_parallelism;

    assert_eq!(f(8, CpuMode::All, CpuDirection::Desc, 1).as_cpu_list(), "7");
    assert_eq!(
        f(8, CpuMode::All, CpuDirection::Desc, 2).as_cpu_list(),
        "6-7"
    );
    assert_eq!(
        f(8, CpuMode::All, CpuDirection::Desc, 4).as_cpu_list(),
        "4-7"
    );
    assert_eq!(
        f(8, CpuMode::All, CpuDirection::Desc, 8).as_cpu_list(),
        "0-7"
    );
    assert_eq!(
        f(8, CpuMode::All, CpuDirection::Desc, 9).as_cpu_list(),
        "0-7"
    );
}

#[test]
fn test_task_set_cpu_list_split_pairs_asc() {
    let f = bencher::TaskSetCpuList::new_with_available_parallelism;

    let mode = bencher::CpuMode::SplitPairs;
    let direction = bencher::CpuDirection::Asc;

    assert_eq!(f(8, mode, direction, 1).as_cpu_list(), "0,4");
    assert_eq!(f(8, mode, direction, 2).as_cpu_list(), "0-1,4-5");
    assert_eq!(f(8, mode, direction, 4).as_cpu_list(), "0-3,4-7");
    assert_eq!(f(8, mode, direction, 8).as_cpu_list(), "0-3,4-7");
    assert_eq!(f(8, mode, direction, 9).as_cpu_list(), "0-3,4-7");
}

#[test]
fn test_task_set_cpu_list_split_pairs_desc() {
    let f = bencher::TaskSetCpuList::new_with_available_parallelism;

    let mode = bencher::CpuMode::SplitPairs;
    let direction = bencher::CpuDirection::Desc;

    assert_eq!(f(8, mode, direction, 1).as_cpu_list(), "3,7");
    assert_eq!(f(8, mode, direction, 2).as_cpu_list(), "2-3,6-7");
    assert_eq!(f(8, mode, direction, 4).as_cpu_list(), "0-3,4-7");
    assert_eq!(f(8, mode, direction, 8).as_cpu_list(), "0-3,4-7");
    assert_eq!(f(8, mode, direction, 9).as_cpu_list(), "0-3,4-7");
}

#[test]
fn test_task_set_cpu_list_subsequent_asc() {
    let f = bencher::TaskSetCpuList::new_with_available_parallelism;

    let mode = bencher::CpuMode::Subsequent;
    let direction = bencher::CpuDirection::Asc;

    assert_eq!(f(8, mode, direction, 1).as_cpu_list(), "0");
    assert_eq!(f(8, mode, direction, 2).as_cpu_list(), "0-1");
    assert_eq!(f(8, mode, direction, 4).as_cpu_list(), "0-3");
    assert_eq!(f(8, mode, direction, 8).as_cpu_list(), "0-7");
    assert_eq!(f(8, mode, direction, 9).as_cpu_list(), "0-7");
}

#[test]
fn test_task_set_cpu_list_subsequent_desc() {
    let f = bencher::TaskSetCpuList::new_with_available_parallelism;

    let mode = bencher::CpuMode::Subsequent;
    let direction = bencher::CpuDirection::Desc;

    assert_eq!(f(8, mode, direction, 1).as_cpu_list(), "7");
    assert_eq!(f(8, mode, direction, 2).as_cpu_list(), "6-7");
    assert_eq!(f(8, mode, direction, 4).as_cpu_list(), "4-7");
    assert_eq!(f(8, mode, direction, 8).as_cpu_list(), "0-7");
    assert_eq!(f(8, mode, direction, 9).as_cpu_list(), "0-7");
}

#[test]
fn test_task_set_cpu_list_subsequent_pairs_asc() {
    let f = bencher::TaskSetCpuList::new_with_available_parallelism;

    let mode = bencher::CpuMode::SubsequentPairs;
    let direction = bencher::CpuDirection::Asc;

    assert_eq!(f(8, mode, direction, 1).as_cpu_list(), "0-1");
    assert_eq!(f(8, mode, direction, 2).as_cpu_list(), "0-3");
    assert_eq!(f(8, mode, direction, 4).as_cpu_list(), "0-7");
    assert_eq!(f(8, mode, direction, 8).as_cpu_list(), "0-7");
    assert_eq!(f(8, mode, direction, 9).as_cpu_list(), "0-7");
}

#[test]
fn test_task_set_cpu_list_subsequent_pairs_desc() {
    let f = bencher::TaskSetCpuList::new_with_available_parallelism;

    let mode = bencher::CpuMode::SubsequentPairs;
    let direction = bencher::CpuDirection::Desc;

    assert_eq!(f(8, mode, direction, 1).as_cpu_list(), "6-7");
    assert_eq!(f(8, mode, direction, 2).as_cpu_list(), "4-7");
    assert_eq!(f(8, mode, direction, 4).as_cpu_list(), "0-7");
    assert_eq!(f(8, mode, direction, 8).as_cpu_list(), "0-7");
    assert_eq!(f(8, mode, direction, 9).as_cpu_list(), "0-7");
}

#[test]
fn test_task_set_cpu_list_subsequent_one_per_pair_asc() {
    let f = bencher::TaskSetCpuList::new_with_available_parallelism;

    let mode = bencher::CpuMode::SubsequentOnePerPair;
    let direction = bencher::CpuDirection::Asc;

    assert_eq!(f(8, mode, direction, 1).as_cpu_list(), "0");
    assert_eq!(f(8, mode, direction, 2).as_cpu_list(), "0,2");
    assert_eq!(f(8, mode, direction, 4).as_cpu_list(), "0,2,4,6");
    assert_eq!(f(8, mode, direction, 8).as_cpu_list(), "0,2,4,6");
    assert_eq!(f(8, mode, direction, 9).as_cpu_list(), "0,2,4,6");
}

#[test]
fn test_task_set_cpu_list_subsequent_one_per_pair_desc() {
    let f = bencher::TaskSetCpuList::new_with_available_parallelism;

    let mode = bencher::CpuMode::SubsequentOnePerPair;
    let direction = bencher::CpuDirection::Desc;

    assert_eq!(f(8, mode, direction, 1).as_cpu_list(), "6");
    assert_eq!(f(8, mode, direction, 2).as_cpu_list(), "4,6");
    assert_eq!(f(8, mode, direction, 4).as_cpu_list(), "0,2,4,6");
    assert_eq!(f(8, mode, direction, 8).as_cpu_list(), "0,2,4,6");
    assert_eq!(f(8, mode, direction, 9).as_cpu_list(), "0,2,4,6");
}

#[test]
fn cpu_indicator_from_ranges() {
    assert!(TaskSetCpuIndicator::try_from(3..3).is_err());
    assert!(matches!(
        TaskSetCpuIndicator::try_from(3..4),
        Ok(TaskSetCpuIndicator::Single(3))
    ));
    assert!(matches!(
        TaskSetCpuIndicator::try_from(3..6),
        Ok(TaskSetCpuIndicator::Range(r)) if r == (3..6)
    ));
    let list = TaskSetCpuList::try_from(vec![0..2, 5..6, 10..14]).unwrap();
    assert_eq!(list.as_cpu_list(), "0-1,5,10-13");
    assert_eq!(
        TaskSetCpuList::try_from(vec![0..2, 4..4]).unwrap_err(),
        "Empty ranges not supported"
    );
}

#[test]
fn simple_runs_use_last_cpus() {
    let runs = simple_load_test_runs(8, CpuMode::All, &[1, 2, 4]);
    let texts: Vec<(usize, String)> = runs
        .iter()
        .map(|(n, list)| (*n, list.as_cpu_list()))
        .collect();
    assert_eq!(
        texts,
        vec![(1, "7".to_string()), (2, "6-7".to_string()), (4, "4-7".to_string())]
    );

    let runs = bencher::simple_load_test_runs(
        16,
        bencher::CpuMode::SubsequentPairs,
        &[(1, bencher::Priority::High), (3, bencher::Priority::Low)],
    );
    assert_eq!(runs.len(), 2);
    assert_eq!(runs[0].1, bencher::Priority::High);
    assert_eq!(runs[0].2.as_cpu_list(), "14-15");
    assert_eq!(runs[1].2.as_cpu_list(), "10-15");
}

#[test]
fn cpu_mode_and_priority_names() {
    assert_eq!(CpuMode::Split.to_string(), "split");
    assert_eq!(CpuMode::All.to_string(), "all");
    assert_eq!(
        bencher::CpuMode::SubsequentOnePerPair.to_string(),
        "subsequent-one-per-pair"
    );
    assert_eq!(bencher::Priority::Medium.to_string(), "medium");
    assert!(bencher::Priority::Low < bencher::Priority::High);
}
