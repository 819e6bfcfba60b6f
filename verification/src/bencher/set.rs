//! What a benchmark set runs: the trackers and the load test parameters,
//! which sets and runs are selected, and how long they take.

use vstd::prelude::*;

use crate::bencher::common::{Priority, TaskSetCpuList};
use crate::bencher::protocols::udp::{runner_priority, SetConfig, UdpRunner, UdpTracker};

verus! {

/// Parameters of one load test run
#[derive(Debug, Clone, Copy, PartialEq, Eq, Structural)]
pub struct LoadTestRunnerParameters {
    pub workers: usize,
    pub duration: usize,
    pub summarize_last: usize,
}

/// A tracker implementation under benchmark
pub trait Tracker {
    fn name(&self) -> String;
}

/// The order of priorities: low, medium, high
pub open spec fn priority_rank(p: Priority) -> int {
    match p {
        Priority::Low => 0,
        Priority::Medium => 1,
        Priority::High => 2,
    }
}

/// Whether the priority is at least the minimum
pub fn priority_at_least(p: Priority, min: Priority) -> (r: bool)
    ensures
        r == (priority_rank(p) >= priority_rank(min)),
{
    let rank = match p {
        Priority::Low => 0u8,
        Priority::Medium => 1u8,
        Priority::High => 2u8,
    };
    let min_rank = match min {
        Priority::Low => 0u8,
        Priority::Medium => 1u8,
        Priority::High => 2u8,
    };
    rank >= min_rank
}

/// The runners of at least the priority, in order
pub open spec fn runners_at_least(rs: Seq<UdpRunner>, min: Priority) -> Seq<UdpRunner>
    decreases rs.len(),
{
    if rs.len() == 0 {
        rs
    } else if priority_rank(runner_priority(rs.last())) >= priority_rank(min) {
        runners_at_least(rs.drop_last(), min).push(rs.last())
    } else {
        runners_at_least(rs.drop_last(), min)
    }
}

/// The load test runs of at least the priority, in order
pub open spec fn load_test_runs_at_least(
    rs: Seq<(usize, Priority, TaskSetCpuList)>,
    min: Priority,
) -> Seq<(usize, Priority, TaskSetCpuList)>
    decreases rs.len(),
{
    if rs.len() == 0 {
        rs
    } else if priority_rank(rs.last().1) >= priority_rank(min) {
        load_test_runs_at_least(rs.drop_last(), min).push(rs.last())
    } else {
        load_test_runs_at_least(rs.drop_last(), min)
    }
}

/// `new` is the set `old` with only the runners and load test runs of at
/// least the priority
pub open spec fn set_filtered(old: SetConfig, new: SetConfig, min: Priority) -> bool {
    &&& new.implementations@.len() == old.implementations@.len()
    &&& forall|i: int|
        0 <= i < old.implementations@.len() ==> (#[trigger] new.implementations@[i]).0 == old.implementations@[i].0
            && new.implementations@[i].1@ == runners_at_least(old.implementations@[i].1@, min)
    &&& new.load_test_runs@ == load_test_runs_at_least(old.load_test_runs@, min)
}

/// Whether a set for that many cores is within the bounds
pub open spec fn cores_selected(cores: usize, min_cores: Option<usize>, max_cores: Option<usize>) -> bool {
    &&& (min_cores matches Some(min) ==> cores >= min)
    &&& (max_cores matches Some(max) ==> cores <= max)
}

/// `new` holds the sets of `old` for core counts within the bounds, in
/// order, each with only its runners and load test runs of at least the
/// priority
pub open spec fn sets_selected(
    old: Seq<(usize, SetConfig)>,
    new: Seq<(usize, SetConfig)>,
    min_cores: Option<usize>,
    max_cores: Option<usize>,
    min_priority: Priority,
) -> bool
    decreases old.len(),
{
    if old.len() == 0 {
        new.len() == 0
    } else if cores_selected(old.last().0, min_cores, max_cores) {
        &&& new.len() > 0
        &&& new.last().0 == old.last().0
        &&& set_filtered(old.last().1, new.last().1, min_priority)
        &&& sets_selected(old.drop_last(), new.drop_last(), min_cores, max_cores, min_priority)
    } else {
        sets_selected(old.drop_last(), new, min_cores, max_cores, min_priority)
    }
}

fn filter_runners(runners: Vec<UdpRunner>, min: Priority) -> (r: Vec<UdpRunner>)
    ensures
        r@ == runners_at_least(runners@, min),
{
    let ghost all = runners@;
    let mut kept: Vec<UdpRunner> = Vec::new();
    let mut i: usize = 0;
    while i < runners.len()
        invariant
            all == runners@,
            0 <= i <= all.len(),
            kept@ == runners_at_least(all.take(i as int), min),
        decreases all.len() - i,
    {
        let runner = runners[i];
        proof {
            assert(all.take(i + 1).drop_last() =~= all.take(i as int));
            assert(all.take(i + 1).last() == runner);
        }
        if priority_at_least(runner.priority(), min) {
            kept.push(runner);
        }
        i = i + 1;
    }
    proof {
        assert(all.take(i as int) =~= all);
    }
    kept
}

fn filter_load_test_runs(runs: Vec<(usize, Priority, TaskSetCpuList)>, min: Priority) -> (r: Vec<
    (usize, Priority, TaskSetCpuList),
>)
    ensures
        r@ == load_test_runs_at_least(runs@, min),
{
    let ghost all = runs@;
    let mut kept: Vec<(usize, Priority, TaskSetCpuList)> = Vec::new();
    let ghost mut done: int = 0;
    for run in it: runs.into_iter()
        invariant
            it.seq() == all,
            done == it.index(),
            0 <= done <= all.len(),
            kept@ == load_test_runs_at_least(all.take(done), min),
    {
        proof {
            assert(all.take(done + 1).drop_last() =~= all.take(done));
            assert(all.take(done + 1).last() == run);
        }
        if priority_at_least(run.1, min) {
            kept.push(run);
        }
        proof {
            done = done + 1;
        }
    }
    proof {
        assert(all.take(done) =~= all);
    }
    kept
}

fn filter_set(set: SetConfig, min: Priority) -> (r: SetConfig)
    ensures
        set_filtered(set, r, min),
{
    let SetConfig { implementations, load_test_runs } = set;
    let ghost impls = implementations@;
    let mut kept: Vec<(UdpTracker, Vec<UdpRunner>)> = Vec::new();
    let ghost mut done: int = 0;
    for entry in it: implementations.into_iter()
        invariant
            it.seq() == impls,
            done == it.index(),
            0 <= done <= impls.len(),
            kept@.len() == done,
            forall|i: int|
                0 <= i < done ==> (#[trigger] kept@[i]).0 == impls[i].0 && kept@[i].1@ == runners_at_least(
                    impls[i].1@,
                    min,
                ),
    {
        let (tracker, runners) = entry;
        kept.push((tracker, filter_runners(runners, min)));
        proof {
            done = done + 1;
        }
    }
    SetConfig { implementations: kept, load_test_runs: filter_load_test_runs(load_test_runs, min) }
}

/// The sets for core counts within the bounds, each with only its runners
/// and load test runs of at least the priority
pub fn select_sets(
    sets: Vec<(usize, SetConfig)>,
    min_cores: Option<usize>,
    max_cores: Option<usize>,
    min_priority: Priority,
) -> (r: Vec<(usize, SetConfig)>)
    ensures
        sets_selected(sets@, r@, min_cores, max_cores, min_priority),
{
    let ghost all = sets@;
    let mut kept: Vec<(usize, SetConfig)> = Vec::new();
    let ghost mut done: int = 0;
    for entry in it: sets.into_iter()
        invariant
            it.seq() == all,
            done == it.index(),
            0 <= done <= all.len(),
            sets_selected(all.take(done), kept@, min_cores, max_cores, min_priority),
    {
        let (cores, set) = entry;
        let ghost old_kept = kept@;
        proof {
            assert(all.take(done + 1).drop_last() =~= all.take(done));
            assert(all.take(done + 1).last() == (cores, set));
        }
        let in_bounds = match min_cores {
            Some(min) => cores >= min,
            None => true,
        } && match max_cores {
            Some(max) => cores <= max,
            None => true,
        };
        if in_bounds {
            let filtered = filter_set(set, min_priority);
            kept.push((cores, filtered));
            proof {
                assert(kept@.drop_last() =~= old_kept);
            }
        }
        proof {
            done = done + 1;
        }
    }
    proof {
        assert(all.take(done) =~= all);
    }
    kept
}

/// Number of runners of a set, over its implementations
pub open spec fn runner_count(impls: Seq<(UdpTracker, Vec<UdpRunner>)>) -> int
    decreases impls.len(),
{
    if impls.len() == 0 {
        0
    } else {
        runner_count(impls.drop_last()) + impls.last().1@.len()
    }
}

/// Number of load test runs of the sets: each runner of a set with each of
/// its load test runs
pub open spec fn total_runs(sets: Seq<(usize, SetConfig)>) -> int
    decreases sets.len(),
{
    if sets.len() == 0 {
        0
    } else {
        total_runs(sets.drop_last()) + runner_count(sets.last().1.implementations@) * sets.last().1.load_test_runs@.len()
    }
}

proof fn lemma_runner_count_prefix(impls: Seq<(UdpTracker, Vec<UdpRunner>)>, i: int)
    requires
        0 <= i <= impls.len(),
    ensures
        0 <= runner_count(impls.take(i)) <= runner_count(impls),
    decreases impls.len(),
{
    if impls.len() > 0 {
        if i == impls.len() {
            assert(impls.take(i) =~= impls);
            lemma_runner_count_prefix(impls.drop_last(), i - 1);
            assert(impls.drop_last().take(i - 1) =~= impls.drop_last());
        } else {
            lemma_runner_count_prefix(impls.drop_last(), i);
            assert(impls.drop_last().take(i) =~= impls.take(i));
        }
    }
}

proof fn lemma_total_runs_prefix(sets: Seq<(usize, SetConfig)>, i: int)
    requires
        0 <= i <= sets.len(),
    ensures
        0 <= total_runs(sets.take(i)) <= total_runs(sets),
    decreases sets.len(),
{
    if sets.len() > 0 {
        let last = sets.last().1;
        lemma_runner_count_prefix(last.implementations@, last.implementations@.len() as int);
        assert(runner_count(last.implementations@) * last.load_test_runs@.len() >= 0) by (nonlinear_arith)
            requires
                runner_count(last.implementations@) >= 0,
        ;
        if i == sets.len() {
            assert(sets.take(i) =~= sets);
            lemma_total_runs_prefix(sets.drop_last(), i - 1);
            assert(sets.drop_last().take(i - 1) =~= sets.drop_last());
        } else {
            lemma_total_runs_prefix(sets.drop_last(), i);
            assert(sets.drop_last().take(i) =~= sets.take(i));
        }
    }
}

/// Number of load test runs of the sets
pub fn total_num_runs(sets: &Vec<(usize, SetConfig)>) -> (r: usize)
    requires
        total_runs(sets@) <= usize::MAX,
    ensures
        r == total_runs(sets@),
{
    let ghost all = sets@;
    let mut total: usize = 0;
    let mut i: usize = 0;
    while i < sets.len()
        invariant
            all == sets@,
            total_runs(all) <= usize::MAX,
            0 <= i <= all.len(),
            total == total_runs(all.take(i as int)),
        decreases all.len() - i,
    {
        let set = &sets[i].1;
        let impls = &set.implementations;
        let ghost iv = impls@;
        let mut runners: usize = 0;
        let mut j: usize = 0;
        let runs = set.load_test_runs.len();
        proof {
            lemma_total_runs_prefix(all, i + 1);
            assert(all.take(i + 1).drop_last() =~= all.take(i as int));
            assert(all.take(i + 1).last() == sets@[i as int]);
            lemma_runner_count_prefix(iv, iv.len() as int);
            if runs > 0 {
                assert(runner_count(iv) <= total_runs(all.take(i + 1))) by (nonlinear_arith)
                    requires
                        total_runs(all.take(i + 1)) == total_runs(all.take(i as int)) + runner_count(iv) * runs,
                        total_runs(all.take(i as int)) >= 0,
                        runner_count(iv) >= 0,
                        runs >= 1,
                ;
            }
        }
        if runs > 0 {
            while j < impls.len()
                invariant
                    iv == impls@,
                    0 <= j <= iv.len(),
                    runners == runner_count(iv.take(j as int)),
                    runner_count(iv) <= usize::MAX,
                decreases iv.len() - j,
            {
                proof {
                    assert(iv.take(j + 1).drop_last() =~= iv.take(j as int));
                    lemma_runner_count_prefix(iv, j + 1);
                }
                runners = runners + impls[j].1.len();
                j = j + 1;
            }
            proof {
                assert(iv.take(j as int) =~= iv);
            }
        }
        proof {
            if runs == 0 {
                assert(runner_count(iv) * runs == 0) by (nonlinear_arith)
                    requires
                        runs == 0,
                ;
                assert(runners * runs == 0) by (nonlinear_arith)
                    requires
                        runs == 0,
                ;
            }
            assert(runners * runs == runner_count(iv) * set.load_test_runs@.len());
            assert(total + runners * runs <= usize::MAX);
        }
        total = total + runners * runs;
        i = i + 1;
    }
    proof {
        assert(all.take(i as int) =~= all);
    }
    total
}

/// How long the runs take, in hours and minutes: each run takes its
/// duration and seven seconds more
pub fn estimated_duration(total_num_runs: usize, duration: usize) -> (r: (usize, usize))
    requires
        duration + 7 <= usize::MAX,
        total_num_runs * (duration + 7) <= usize::MAX,
    ensures
        r.0 == total_num_runs * (duration + 7) / 60 / 60,
        r.1 == total_num_runs * (duration + 7) / 60 % 60,
{
    let minutes = (total_num_runs * (duration + 7)) / 60;
    (minutes / 60, minutes % 60)
}

// ---------------------------------------------------------------------
// Results

/// A successful load test run. The process statistics of the tracker
/// (CPU utilization as a float, peak memory) stay with the caller, which
/// finds them again by the run's position.
pub struct LoadTestRunResultsSuccess {
    pub average_responses: u64,
    pub tracker_keys: Vec<(String, String)>,
    pub tracker_info: String,
    pub tracker_vcpus: TaskSetCpuList,
    pub load_test_keys: Vec<(String, String)>,
    pub load_test_vcpus: TaskSetCpuList,
}

pub struct LoadTestRunResultsFailure {
    pub tracker_keys: Vec<(String, String)>,
    pub tracker_vcpus: TaskSetCpuList,
    pub load_test_keys: Vec<(String, String)>,
    pub load_test_vcpus: TaskSetCpuList,
}

pub enum LoadTestRunResults {
    Success(LoadTestRunResultsSuccess),
    Failure(LoadTestRunResultsFailure),
}

pub struct TrackerConfigurationResults {
    pub load_tests: Vec<LoadTestRunResults>,
}

pub struct ImplementationResults {
    pub name: String,
    pub configurations: Vec<TrackerConfigurationResults>,
}

pub struct TrackerCoreCountResults {
    pub core_count: usize,
    pub implementations: Vec<ImplementationResults>,
}

/// The average responses of a successful run, or -1 for a failed one
pub open spec fn run_score(r: LoadTestRunResults) -> int {
    match r {
        LoadTestRunResults::Success(s) => s.average_responses as int,
        LoadTestRunResults::Failure(_) => -1,
    }
}

/// Position `j` holds the best run: a success with the most average
/// responses, the first one among equals
pub open spec fn best_in(tests: Seq<LoadTestRunResults>, j: int) -> bool {
    &&& 0 <= j < tests.len()
    &&& run_score(tests[j]) >= 0
    &&& forall|k: int| 0 <= k < tests.len() ==> run_score(#[trigger] tests[k]) <= run_score(tests[j])
    &&& forall|k: int| 0 <= k < j ==> run_score(#[trigger] tests[k]) < run_score(tests[j])
}

/// No run succeeded
pub open spec fn none_succeeded(tests: Seq<LoadTestRunResults>) -> bool {
    forall|k: int| 0 <= k < tests.len() ==> run_score(#[trigger] tests[k]) < 0
}

impl TrackerConfigurationResults {
    /// The position of the best successful run, if any run succeeded
    pub fn best_result(&self) -> (r: Option<usize>)
        ensures
            match r {
                Some(j) => best_in(self.load_tests@, j as int),
                None => none_succeeded(self.load_tests@),
            },
    {
        let tests = &self.load_tests;
        let mut best: Option<(usize, u64)> = None;
        let mut k: usize = 0;
        while k < tests.len()
            invariant
                0 <= k <= tests@.len(),
                match best {
                    Some((j, v)) => {
                        &&& j < k
                        &&& run_score(tests@[j as int]) == v
                        &&& forall|x: int| 0 <= x < k ==> run_score(#[trigger] tests@[x]) <= v
                        &&& forall|x: int| 0 <= x < j ==> run_score(#[trigger] tests@[x]) < v
                    },
                    None => forall|x: int| 0 <= x < k ==> run_score(#[trigger] tests@[x]) < 0,
                },
            decreases tests@.len() - k,
        {
            match &tests[k] {
                LoadTestRunResults::Success(run) => {
                    let better = match best {
                        Some((_, v)) => run.average_responses > v,
                        None => true,
                    };
                    if better {
                        best = Some((k, run.average_responses));
                    }
                },
                LoadTestRunResults::Failure(_) => {},
            }
            k = k + 1;
        }
        match best {
            Some((j, _)) => Some(j),
            None => None,
        }
    }
}

/// Position `(i, j)` holds the best run of all configurations: a success
/// with the most average responses, the first one among equals
pub open spec fn best_of_all(cs: Seq<TrackerConfigurationResults>, i: int, j: int) -> bool {
    &&& 0 <= i < cs.len()
    &&& 0 <= j < cs[i].load_tests@.len()
    &&& run_score(cs[i].load_tests@[j]) >= 0
    &&& forall|a: int, b: int|
        0 <= a < cs.len() && 0 <= b < cs[a].load_tests@.len() ==> run_score(#[trigger] cs[a].load_tests@[b])
            <= run_score(cs[i].load_tests@[j])
    &&& forall|a: int, b: int|
        0 <= a < cs.len() && 0 <= b < cs[a].load_tests@.len() && (a < i || (a == i && b < j)) ==> run_score(
            #[trigger] cs[a].load_tests@[b],
        ) < run_score(cs[i].load_tests@[j])
}

impl ImplementationResults {
    /// The configuration and position of the best successful run, if any
    /// run succeeded
    pub fn best_result(&self) -> (r: Option<(usize, usize)>)
        ensures
            match r {
                Some((i, j)) => best_of_all(self.configurations@, i as int, j as int),
                None => forall|a: int| 0 <= a < self.configurations@.len() ==> none_succeeded(
                    #[trigger] self.configurations@[a].load_tests@,
                ),
            },
    {
        let cs = &self.configurations;
        let mut best: Option<(usize, usize, u64)> = None;
        let mut a: usize = 0;
        while a < cs.len()
            invariant
                0 <= a <= cs@.len(),
                match best {
                    Some((i, j, v)) => {
                        &&& i < a
                        &&& j < cs@[i as int].load_tests@.len()
                        &&& run_score(cs@[i as int].load_tests@[j as int]) == v
                        &&& forall|x: int, y: int|
                            0 <= x < a && 0 <= y < cs@[x].load_tests@.len() ==> run_score(
                                #[trigger] cs@[x].load_tests@[y],
                            ) <= v
                        &&& forall|x: int, y: int|
                            0 <= x < a && 0 <= y < cs@[x].load_tests@.len() && (x < i || (x == i && y < j))
                                ==> run_score(#[trigger] cs@[x].load_tests@[y]) < v
                    },
                    None => forall|x: int| 0 <= x < a ==> none_succeeded(#[trigger] cs@[x].load_tests@),
                },
            decreases cs@.len() - a,
        {
            match cs[a].best_result() {
                Some(j) => {
                    let v = match &cs[a].load_tests[j] {
                        LoadTestRunResults::Success(run) => run.average_responses,
                        LoadTestRunResults::Failure(_) => 0,
                    };
                    let better = match best {
                        Some((_, _, w)) => v > w,
                        None => true,
                    };
                    if better {
                        best = Some((a, j, v));
                    }
                },
                None => {},
            }
            a = a + 1;
        }
        match best {
            Some((i, j, _)) => Some((i, j)),
            None => None,
        }
    }
}

} // verus!
