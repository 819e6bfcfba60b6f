//! The UDP servers under load test and the configurations they run with in
//! each load test set.

use vstd::prelude::*;

use crate::decimal::{decimal, decimal_string, push_decimal};
use crate::load_tester::common::{
    cpu_request_valid, load_test_run, simple_load_test_runs, CpuDirection, CpuMode, TaskSetCpuList,
};
use crate::load_tester::set::Server;

verus! {

#[derive(Debug, Clone, Copy, PartialEq, Eq, Hash, Structural)]
pub enum UdpServer {
    Aquatic,
    OpenTracker,
}

/// The name of a server
pub open spec fn server_name(server: UdpServer) -> Seq<char> {
    match server {
        UdpServer::Aquatic => "aquatic_udp"@,
        UdpServer::OpenTracker => "opentracker"@,
    }
}

impl Server for UdpServer {
    fn name(&self) -> (r: String)
        ensures
            r@ == server_name(*self),
    {
        match self {
            Self::Aquatic => String::from_str("aquatic_udp"),
            Self::OpenTracker => String::from_str("opentracker"),
        }
    }
}

/// The CPU mode and the paths of the binaries that the load test runs
#[derive(Debug, Clone)]
pub struct UdpCommand {
    pub cpu_mode: CpuMode,
    pub load_test: String,
    pub aquatic: String,
    pub opentracker: String,
}

/// The keys as character sequences
pub open spec fn keys_view(keys: Seq<(String, String)>) -> Seq<(Seq<char>, Seq<char>)> {
    keys.map_values(|k: (String, String)| (k.0@, k.1@))
}

#[derive(Debug, Clone, Copy, PartialEq, Eq, Structural)]
pub struct AquaticUdpProcessConfig {
    pub socket_workers: usize,
    pub swarm_workers: usize,
}

impl AquaticUdpProcessConfig {
    pub fn info(&self) -> (r: String)
        ensures
            r@ == "socket workers: "@ + decimal(self.socket_workers as nat) + ", swarm workers: "@ + decimal(
                self.swarm_workers as nat,
            ),
    {
        let mut s = String::from_str("socket workers: ");
        push_decimal(&mut s, self.socket_workers);
        s.append(", swarm workers: ");
        push_decimal(&mut s, self.swarm_workers);
        s
    }

    pub fn keys(&self) -> (r: Vec<(String, String)>)
        ensures
            keys_view(r@) == seq![
                ("socket workers"@, decimal(self.socket_workers as nat)),
                ("swarm workers"@, decimal(self.swarm_workers as nat)),
            ],
    {
        let keys = vec![
            (String::from_str("socket workers"), decimal_string(self.socket_workers)),
            (String::from_str("swarm workers"), decimal_string(self.swarm_workers)),
        ];
        proof {
            assert(keys_view(keys@) =~= seq![
                ("socket workers"@, decimal(self.socket_workers as nat)),
                ("swarm workers"@, decimal(self.swarm_workers as nat)),
            ]);
        }
        keys
    }
}

#[derive(Debug, Clone, Copy, PartialEq, Eq, Structural)]
pub struct OpenTrackerUdpProcessConfig {
    pub workers: usize,
}

#[derive(Debug, Clone, Copy, PartialEq, Eq, Structural)]
pub struct AquaticUdpLoadTestProcessConfig {
    pub workers: usize,
}

/// The description of a process with a number of workers
pub fn workers_info(workers: usize) -> (r: String)
    ensures
        r@ == "workers: "@ + decimal(workers as nat),
{
    let mut s = String::from_str("workers: ");
    push_decimal(&mut s, workers);
    s
}

/// The keys of a process with a number of workers
pub fn workers_keys(workers: usize) -> (r: Vec<(String, String)>)
    ensures
        keys_view(r@) == seq![("workers"@, decimal(workers as nat))],
{
    let keys = vec![(String::from_str("workers"), decimal_string(workers))];
    proof {
        assert(keys_view(keys@) =~= seq![("workers"@, decimal(workers as nat))]);
    }
    keys
}

impl OpenTrackerUdpProcessConfig {
    pub fn info(&self) -> (r: String)
        ensures
            r@ == "workers: "@ + decimal(self.workers as nat),
    {
        workers_info(self.workers)
    }

    pub fn keys(&self) -> (r: Vec<(String, String)>)
        ensures
            keys_view(r@) == seq![("workers"@, decimal(self.workers as nat))],
    {
        workers_keys(self.workers)
    }
}

impl AquaticUdpLoadTestProcessConfig {
    pub fn info(&self) -> (r: String)
        ensures
            r@ == "workers: "@ + decimal(self.workers as nat),
    {
        workers_info(self.workers)
    }

    pub fn keys(&self) -> (r: Vec<(String, String)>)
        ensures
            keys_view(r@) == seq![("workers"@, decimal(self.workers as nat))],
    {
        workers_keys(self.workers)
    }
}

/// The servers of a load test set and the configurations each runs in it
pub struct SetConfig {
    pub implementations: Vec<(UdpServer, Vec<AquaticUdpProcessConfig>)>,
    pub load_test_runs: Vec<(usize, TaskSetCpuList)>,
}

/// The aquatic configurations of the set for `cores` cores: one socket
/// worker and one swarm worker, and for two cores also two socket workers
pub open spec fn set_implementations(cores: usize) -> Seq<AquaticUdpProcessConfig> {
    if cores == 1 {
        seq![AquaticUdpProcessConfig { socket_workers: 1, swarm_workers: 1 }]
    } else {
        seq![
            AquaticUdpProcessConfig { socket_workers: 1, swarm_workers: 1 },
            AquaticUdpProcessConfig { socket_workers: 2, swarm_workers: 1 },
        ]
    }
}

/// A load test set as the spec describes it: aquatic alone, and load tests
/// with 1, 2 and 4 workers
pub open spec fn set_matches(available_parallelism: usize, cpu_mode: CpuMode, cores: usize, set: SetConfig) -> bool {
    &&& set.implementations@.len() == 1
    &&& set.implementations@[0].0 == UdpServer::Aquatic
    &&& set.implementations@[0].1@ == set_implementations(cores)
    &&& set.load_test_runs@.len() == 3
    &&& forall|i: int|
        0 <= i < 3 ==> load_test_run(
            available_parallelism,
            cpu_mode,
            seq![1usize, 2, 4][i],
            #[trigger] set.load_test_runs@[i],
        )
}

impl UdpCommand {
    /// The load test sets by core count
    pub fn sets(&self, available_parallelism: usize) -> (r: Vec<(usize, SetConfig)>)
        requires
            forall|w: usize|
                w == 1 || w == 2 || w == 4 ==> #[trigger] cpu_request_valid(
                    available_parallelism,
                    self.cpu_mode,
                    CpuDirection::Desc,
                    w,
                ),
        ensures
            r@.len() == 2,
            r@[0].0 == 1 && set_matches(available_parallelism, self.cpu_mode, 1, r@[0].1),
            r@[1].0 == 2 && set_matches(available_parallelism, self.cpu_mode, 2, r@[1].1),
    {
        let workers: [usize; 3] = [1, 2, 4];
        proof {
            assert(cpu_request_valid(available_parallelism, self.cpu_mode, CpuDirection::Desc, 1));
            assert(cpu_request_valid(available_parallelism, self.cpu_mode, CpuDirection::Desc, 2));
            assert(cpu_request_valid(available_parallelism, self.cpu_mode, CpuDirection::Desc, 4));
            assert(workers@ =~= seq![1usize, 2, 4]);
        }
        let one = SetConfig {
            implementations: vec![
                (UdpServer::Aquatic, vec![AquaticUdpProcessConfig { socket_workers: 1, swarm_workers: 1 }]),
            ],
            load_test_runs: simple_load_test_runs(available_parallelism, self.cpu_mode, &workers),
        };
        let two = SetConfig {
            implementations: vec![
                (
                    UdpServer::Aquatic,
                    vec![
                        AquaticUdpProcessConfig { socket_workers: 1, swarm_workers: 1 },
                        AquaticUdpProcessConfig { socket_workers: 2, swarm_workers: 1 },
                    ],
                ),
            ],
            load_test_runs: simple_load_test_runs(available_parallelism, self.cpu_mode, &workers),
        };
        proof {
            assert(one.implementations@[0].1@ =~= set_implementations(1));
            assert(two.implementations@[0].1@ =~= set_implementations(2));
        }
        vec![(1, one), (2, two)]
    }
}

} // verus!
