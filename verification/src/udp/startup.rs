//! What the UDP tracker decides before it starts its workers: whether the
//! configuration can run, how many socket workers and sockets it has, and
//! the names and exit messages of its workers.

use vstd::prelude::*;

use crate::common::{worker_name, WorkerType};
use crate::decimal::{decimal, push_decimal};
use crate::udp::config::Config;

verus! {

/// The number of socket workers to run: the configured number, or one per
/// available CPU (one if that is unknown) where the configuration says zero
pub open spec fn socket_workers_to_run(configured: usize, available_parallelism: Option<usize>) -> usize {
    if configured == 0 {
        match available_parallelism {
            Some(n) => n,
            None => 1,
        }
    } else {
        configured
    }
}

/// The configuration that the tracker runs with, and the number of sockets
/// of each socket worker (one per IP version in use). Fails when neither
/// IPv4 nor IPv6 is in use.
pub fn prepare_config(config: Config, available_parallelism: Option<usize>) -> (r: Result<(Config, usize), String>)
    ensures
        !(config.network.use_ipv4 || config.network.use_ipv6) ==> (r matches Err(e) && e@
            == "Both use_ipv4 and use_ipv6 can not be set to false"@),
        config.network.use_ipv4 || config.network.use_ipv6 ==> (r matches Ok((c, n)) && c == Config {
            socket_workers: socket_workers_to_run(config.socket_workers, available_parallelism),
            ..config
        } && n == (if config.network.use_ipv4 { 1int } else { 0 }) + (if config.network.use_ipv6 { 1int } else { 0 })),
{
    if !(config.network.use_ipv4 || config.network.use_ipv6) {
        return Err(String::from_str("Both use_ipv4 and use_ipv6 can not be set to false"));
    }
    let mut config = config;
    if config.socket_workers == 0 {
        config.socket_workers = match available_parallelism {
            Some(n) => n,
            None => 1,
        };
    }
    let num_sockets_per_worker: usize = (if config.network.use_ipv4 { 1 } else { 0 }) + (if config.network.use_ipv6 {
        1
    } else {
        0
    });
    Ok((config, num_sockets_per_worker))
}

/// The name of the thread of socket worker `index`: "socket-" and the
/// worker's number from one, in at least two digits
pub open spec fn socket_thread_name(index: nat) -> Seq<char> {
    "socket-"@ + (if index + 1 < 10 { "0"@ } else { Seq::<char>::empty() }) + decimal(index + 1)
}

pub fn socket_worker_thread_name(index: usize) -> (r: String)
    requires
        index < usize::MAX,
    ensures
        r@ == socket_thread_name(index as nat),
{
    let mut name = String::from_str("socket-");
    if index + 1 < 10 {
        name.append("0");
    }
    push_decimal(&mut name, index + 1);
    proof {
        reveal_strlit("socket-");
        reveal_strlit("0");
        assert(name@ =~= socket_thread_name(index as nat));
    }
    name
}

/// How a worker ended
#[derive(Debug, Clone, Copy, PartialEq, Eq, Structural)]
pub enum WorkerExit {
    /// It returned, with or without an error
    Stopped,
    Panicked,
}

/// The message that the tracker quits with when a worker ends: the worker's
/// name, then "stopped" or "panicked"
pub fn worker_exit_message(worker_type: WorkerType, exit: WorkerExit) -> (r: String)
    requires
        worker_type matches WorkerType::Swarm(index) ==> index < usize::MAX,
        worker_type matches WorkerType::Socket(index) ==> index < usize::MAX,
    ensures
        r@ == worker_name(worker_type) + if exit is Stopped { " stopped"@ } else { " panicked"@ },
{
    let mut message = worker_type.to_string();
    match exit {
        WorkerExit::Stopped => message.append(" stopped"),
        WorkerExit::Panicked => message.append(" panicked"),
    }
    message
}

} // verus!
