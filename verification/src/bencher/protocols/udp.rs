//! The UDP trackers under benchmark, the configurations they run with in
//! each benchmark set, and the load test that drives them.

use vstd::prelude::*;

use crate::bencher::common::{
    cpu_request_valid, load_test_run, simple_load_test_runs, CpuDirection, CpuMode, Priority, TaskSetCpuList,
};
use crate::bencher::set::{LoadTestRunnerParameters, Tracker};
use crate::decimal::{decimal, decimal_string};

verus! {

#[derive(Debug, Clone, Copy, PartialEq, Eq, Hash, Structural)]
pub enum UdpTracker {
    Aquatic,
    AquaticIoUring,
    OpenTracker,
    Chihaya,
    TorrustTracker,
}

/// The name of a tracker
pub open spec fn tracker_name(tracker: UdpTracker) -> Seq<char> {
    match tracker {
        UdpTracker::Aquatic => "aquatic_udp"@,
        UdpTracker::AquaticIoUring => "aquatic_udp (io_uring)"@,
        UdpTracker::OpenTracker => "opentracker"@,
        UdpTracker::Chihaya => "chihaya"@,
        UdpTracker::TorrustTracker => "torrust-tracker"@,
    }
}

impl Tracker for UdpTracker {
    fn name(&self) -> (r: String)
        ensures
            r@ == tracker_name(*self),
    {
        match self {
            Self::Aquatic => String::from_str("aquatic_udp"),
            Self::AquaticIoUring => String::from_str("aquatic_udp (io_uring)"),
            Self::OpenTracker => String::from_str("opentracker"),
            Self::Chihaya => String::from_str("chihaya"),
            Self::TorrustTracker => String::from_str("torrust-tracker"),
        }
    }
}

/// Paths of the binaries that the benchmark runs
#[derive(Debug, Clone)]
pub struct UdpCommand {
    /// Path to aquatic_udp_load_test binary
    pub load_test: String,
    /// Path to aquatic_udp binary
    pub aquatic: String,
    /// Path to opentracker binary
    pub opentracker: String,
    /// Path to chihaya binary
    pub chihaya: String,
    /// Path to torrust-tracker binary
    pub torrust_tracker: String,
}

/// aquatic_udp with a number of socket workers, on mio or io_uring
#[derive(Debug, Clone, Copy, PartialEq, Eq, Structural)]
pub struct AquaticUdpRunner {
    pub socket_workers: usize,
    pub use_io_uring: bool,
    pub priority: Priority,
}

/// opentracker with a number of workers
#[derive(Debug, Clone, Copy, PartialEq, Eq, Structural)]
pub struct OpenTrackerUdpRunner {
    pub workers: usize,
    pub priority: Priority,
}

#[derive(Debug, Clone, Copy, PartialEq, Eq, Structural)]
pub struct ChihayaUdpRunner;

#[derive(Debug, Clone, Copy, PartialEq, Eq, Structural)]
pub struct TorrustTrackerUdpRunner;

/// The load test against the trackers
#[derive(Debug, Clone, Copy, PartialEq, Eq, Structural)]
pub struct AquaticUdpLoadTestRunner {
    pub parameters: LoadTestRunnerParameters,
}

/// A tracker process that a benchmark set runs
#[derive(Debug, Clone, Copy, PartialEq, Eq, Structural)]
pub enum UdpRunner {
    Aquatic(AquaticUdpRunner),
    OpenTracker(OpenTrackerUdpRunner),
    Chihaya(ChihayaUdpRunner),
    TorrustTracker(TorrustTrackerUdpRunner),
}

impl AquaticUdpRunner {
    pub fn with_mio(socket_workers: usize, priority: Priority) -> (r: UdpRunner)
        ensures
            r == UdpRunner::Aquatic(AquaticUdpRunner { socket_workers, use_io_uring: false, priority }),
    {
        UdpRunner::Aquatic(Self { socket_workers, use_io_uring: false, priority })
    }

    pub fn with_io_uring(socket_workers: usize, priority: Priority) -> (r: UdpRunner)
        ensures
            r == UdpRunner::Aquatic(AquaticUdpRunner { socket_workers, use_io_uring: true, priority }),
    {
        UdpRunner::Aquatic(Self { socket_workers, use_io_uring: true, priority })
    }
}

impl OpenTrackerUdpRunner {
    pub fn new(workers: usize, priority: Priority) -> (r: UdpRunner)
        ensures
            r == UdpRunner::OpenTracker(OpenTrackerUdpRunner { workers, priority }),
    {
        UdpRunner::OpenTracker(Self { workers, priority })
    }
}

impl ChihayaUdpRunner {
    pub fn new() -> (r: UdpRunner)
        ensures
            r == UdpRunner::Chihaya(ChihayaUdpRunner),
    {
        UdpRunner::Chihaya(Self)
    }
}

impl TorrustTrackerUdpRunner {
    pub fn new() -> (r: UdpRunner)
        ensures
            r == UdpRunner::TorrustTracker(TorrustTrackerUdpRunner),
    {
        UdpRunner::TorrustTracker(Self)
    }
}

/// The priority of a tracker process: its own, or high for the trackers
/// that have only one configuration
pub open spec fn runner_priority(runner: UdpRunner) -> Priority {
    match runner {
        UdpRunner::Aquatic(r) => r.priority,
        UdpRunner::OpenTracker(r) => r.priority,
        UdpRunner::Chihaya(_) => Priority::High,
        UdpRunner::TorrustTracker(_) => Priority::High,
    }
}

/// The keys that describe a tracker process in the results, with their
/// values
pub open spec fn runner_keys(runner: UdpRunner) -> Seq<(Seq<char>, Seq<char>)> {
    match runner {
        UdpRunner::Aquatic(r) => seq![("socket workers"@, decimal(r.socket_workers as nat))],
        UdpRunner::OpenTracker(r) => seq![("workers"@, decimal(r.workers as nat))],
        UdpRunner::Chihaya(_) => Seq::empty(),
        UdpRunner::TorrustTracker(_) => Seq::empty(),
    }
}

/// The keys as character sequences
pub open spec fn keys_view(keys: Seq<(String, String)>) -> Seq<(Seq<char>, Seq<char>)> {
    keys.map_values(|k: (String, String)| (k.0@, k.1@))
}

impl UdpRunner {
    pub fn priority(&self) -> (r: Priority)
        ensures
            r == runner_priority(*self),
    {
        match self {
            UdpRunner::Aquatic(r) => r.priority,
            UdpRunner::OpenTracker(r) => r.priority,
            UdpRunner::Chihaya(_) => Priority::High,
            UdpRunner::TorrustTracker(_) => Priority::High,
        }
    }

    pub fn keys(&self) -> (r: Vec<(String, String)>)
        ensures
            keys_view(r@) == runner_keys(*self),
    {
        let mut keys: Vec<(String, String)> = Vec::new();
        match self {
            UdpRunner::Aquatic(r) => {
                keys.push((String::from_str("socket workers"), decimal_string(r.socket_workers)));
            },
            UdpRunner::OpenTracker(r) => {
                keys.push((String::from_str("workers"), decimal_string(r.workers)));
            },
            UdpRunner::Chihaya(_) => {},
            UdpRunner::TorrustTracker(_) => {},
        }
        proof {
            assert(keys_view(keys@) =~= runner_keys(*self));
        }
        keys
    }
}

impl AquaticUdpLoadTestRunner {
    pub fn priority(&self) -> (r: Priority)
        ensures
            r == Priority::High,
    {
        Priority::High
    }

    pub fn keys(&self) -> (r: Vec<(String, String)>)
        ensures
            keys_view(r@) == seq![("workers"@, decimal(self.parameters.workers as nat))],
    {
        let mut keys: Vec<(String, String)> = Vec::new();
        keys.push((String::from_str("workers"), decimal_string(self.parameters.workers)));
        proof {
            assert(keys_view(keys@) =~= seq![("workers"@, decimal(self.parameters.workers as nat))]);
        }
        keys
    }
}

/// The trackers of a benchmark set and the processes each runs in it
pub struct SetConfig {
    pub implementations: Vec<(UdpTracker, Vec<UdpRunner>)>,
    pub load_test_runs: Vec<(usize, Priority, TaskSetCpuList)>,
}

/// The core counts of the benchmark sets
pub open spec fn set_cores() -> Seq<usize> {
    seq![1usize, 2, 4, 6, 8, 12, 16]
}

/// The tracker processes of the set for `cores` cores: aquatic on mio and
/// on io_uring, and opentracker, with as many workers as cores at high
/// priority and twice as many at low priority (for one core, opentracker
/// also handles requests within its event loop, at medium priority), and
/// chihaya and torrust-tracker as they come
pub open spec fn set_implementations(cores: usize) -> Seq<(UdpTracker, Seq<UdpRunner>)> {
    let double = (cores * 2) as usize;
    seq![
        (UdpTracker::Aquatic, seq![
            UdpRunner::Aquatic(AquaticUdpRunner { socket_workers: cores, use_io_uring: false, priority: Priority::High }),
            UdpRunner::Aquatic(AquaticUdpRunner { socket_workers: double, use_io_uring: false, priority: Priority::Low }),
        ]),
        (UdpTracker::AquaticIoUring, seq![
            UdpRunner::Aquatic(AquaticUdpRunner { socket_workers: cores, use_io_uring: true, priority: Priority::High }),
            UdpRunner::Aquatic(AquaticUdpRunner { socket_workers: double, use_io_uring: true, priority: Priority::Low }),
        ]),
        (UdpTracker::OpenTracker, if cores == 1 {
            seq![
                UdpRunner::OpenTracker(OpenTrackerUdpRunner { workers: 0, priority: Priority::Medium }),
                UdpRunner::OpenTracker(OpenTrackerUdpRunner { workers: 1, priority: Priority::High }),
                UdpRunner::OpenTracker(OpenTrackerUdpRunner { workers: 2, priority: Priority::Low }),
            ]
        } else {
            seq![
                UdpRunner::OpenTracker(OpenTrackerUdpRunner { workers: cores, priority: Priority::High }),
                UdpRunner::OpenTracker(OpenTrackerUdpRunner { workers: double, priority: Priority::Low }),
            ]
        }),
        (UdpTracker::Chihaya, seq![UdpRunner::Chihaya(ChihayaUdpRunner)]),
        (UdpTracker::TorrustTracker, seq![UdpRunner::TorrustTracker(TorrustTrackerUdpRunner)]),
    ]
}

/// The worker counts and priorities of the load tests of the set for
/// `cores` cores: 8 and 12 workers, the 8 at medium priority except for
/// the largest set
pub open spec fn set_load_test_workers(cores: usize) -> Seq<(usize, Priority)> {
    if cores == 16 {
        seq![(8usize, Priority::High), (12usize, Priority::High)]
    } else {
        seq![(8usize, Priority::Medium), (12usize, Priority::High)]
    }
}

/// The implementations as sequences
pub open spec fn implementations_view(v: Seq<(UdpTracker, Vec<UdpRunner>)>) -> Seq<(UdpTracker, Seq<UdpRunner>)> {
    v.map_values(|x: (UdpTracker, Vec<UdpRunner>)| (x.0, x.1@))
}

/// A benchmark set as the spec describes it
pub open spec fn set_matches(
    available_parallelism: usize,
    cpu_mode: CpuMode,
    cores: usize,
    set: SetConfig,
) -> bool {
    &&& implementations_view(set.implementations@) == set_implementations(cores)
    &&& set.load_test_runs@.len() == set_load_test_workers(cores).len()
    &&& forall|i: int|
        0 <= i < set.load_test_runs@.len() ==> load_test_run(
            available_parallelism,
            cpu_mode,
            set_load_test_workers(cores)[i],
            #[trigger] set.load_test_runs@[i],
        )
}

fn set_config(available_parallelism: usize, cpu_mode: CpuMode, cores: usize) -> (r: SetConfig)
    requires
        cores <= 16,
        cpu_request_valid(available_parallelism, cpu_mode, CpuDirection::Desc, 8),
        cpu_request_valid(available_parallelism, cpu_mode, CpuDirection::Desc, 12),
    ensures
        set_matches(available_parallelism, cpu_mode, cores, r),
{
    let double = cores * 2;
    let aquatic = vec![AquaticUdpRunner::with_mio(cores, Priority::High), AquaticUdpRunner::with_mio(double, Priority::Low)];
    let aquatic_io_uring = vec![
        AquaticUdpRunner::with_io_uring(cores, Priority::High),
        AquaticUdpRunner::with_io_uring(double, Priority::Low),
    ];
    let opentracker = if cores == 1 {
        // Handle requests within event loop
        vec![
            OpenTrackerUdpRunner::new(0, Priority::Medium),
            OpenTrackerUdpRunner::new(1, Priority::High),
            OpenTrackerUdpRunner::new(2, Priority::Low),
        ]
    } else {
        vec![OpenTrackerUdpRunner::new(cores, Priority::High), OpenTrackerUdpRunner::new(double, Priority::Low)]
    };
    let implementations = vec![
        (UdpTracker::Aquatic, aquatic),
        (UdpTracker::AquaticIoUring, aquatic_io_uring),
        (UdpTracker::OpenTracker, opentracker),
        (UdpTracker::Chihaya, vec![ChihayaUdpRunner::new()]),
        (UdpTracker::TorrustTracker, vec![TorrustTrackerUdpRunner::new()]),
    ];
    let workers = if cores == 16 {
        [(8, Priority::High), (12, Priority::High)]
    } else {
        [(8, Priority::Medium), (12, Priority::High)]
    };
    let load_test_runs = simple_load_test_runs(available_parallelism, cpu_mode, &workers);
    proof {
        let spec = set_implementations(cores);
        assert(aquatic@ =~= spec[0].1);
        assert(aquatic_io_uring@ =~= spec[1].1);
        assert(opentracker@ =~= spec[2].1);
        assert(implementations@[3].1@ =~= spec[3].1);
        assert(implementations@[4].1@ =~= spec[4].1);
        assert(implementations_view(implementations@) =~= set_implementations(cores));
        assert(workers@ =~= set_load_test_workers(cores));
    }
    SetConfig { implementations, load_test_runs }
}

impl UdpCommand {
    /// The benchmark sets by core count. Priorities are based on what has
    /// previously produced the best results.
    pub fn sets(&self, available_parallelism: usize, cpu_mode: CpuMode) -> (r: Vec<(usize, SetConfig)>)
        requires
            cpu_request_valid(available_parallelism, cpu_mode, CpuDirection::Desc, 8),
            cpu_request_valid(available_parallelism, cpu_mode, CpuDirection::Desc, 12),
        ensures
            r@.len() == set_cores().len(),
            forall|i: int|
                0 <= i < r@.len() ==> (#[trigger] r@[i]).0 == set_cores()[i] && set_matches(
                    available_parallelism,
                    cpu_mode,
                    set_cores()[i],
                    r@[i].1,
                ),
    {
        let cores: [usize; 7] = [1, 2, 4, 6, 8, 12, 16];
        let mut sets: Vec<(usize, SetConfig)> = Vec::new();
        let mut i: usize = 0;
        while i < 7
            invariant
                cores@ == set_cores(),
                i <= 7,
                sets@.len() == i,
                cpu_request_valid(available_parallelism, cpu_mode, CpuDirection::Desc, 8),
                cpu_request_valid(available_parallelism, cpu_mode, CpuDirection::Desc, 12),
                forall|j: int|
                    0 <= j < i ==> (#[trigger] sets@[j]).0 == set_cores()[j] && set_matches(
                        available_parallelism,
                        cpu_mode,
                        set_cores()[j],
                        sets@[j].1,
                    ),
            decreases 7 - i,
        {
            let c = cores[i];
            sets.push((c, set_config(available_parallelism, cpu_mode, c)));
            i = i + 1;
        }
        sets
    }

    /// The load test process for the parameters
    pub fn load_test_gen(parameters: LoadTestRunnerParameters) -> (r: AquaticUdpLoadTestRunner)
        ensures
            r.parameters == parameters,
    {
        AquaticUdpLoadTestRunner { parameters }
    }
}

} // verus!
