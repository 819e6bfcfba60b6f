use aquatic::common::WorkerType;
use aquatic::udp::config::Config;
use aquatic::udp::startup::{prepare_config, socket_worker_thread_name, worker_exit_message, WorkerExit};

#[test]
fn test_prepare_config() {
    let mut config = Config::default();
    config.socket_workers = 0;
    config.network.use_ipv6 = true;
    let (prepared, sockets) = prepare_config(config.clone(), Some(6)).unwrap();
    assert_eq!(prepared.socket_workers, 6);
    assert_eq!(sockets, if config.network.use_ipv4 { 2 } else { 1 });

    let (prepared, _) = prepare_config(config.clone(), None).unwrap();
    assert_eq!(prepared.socket_workers, 1);

    config.socket_workers = 3;
    let (prepared, _) = prepare_config(config.clone(), Some(6)).unwrap();
    assert_eq!(prepared.socket_workers, 3);

    config.network.use_ipv4 = false;
    config.network.use_ipv6 = false;
    assert_eq!(
        prepare_config(config, Some(6)).unwrap_err(),
        "Both use_ipv4 and use_ipv6 can not be set to false"
    );
}

#[test]
fn test_worker_names() {
    assert_eq!(socket_worker_thread_name(0), "socket-01");
    assert_eq!(socket_worker_thread_name(9), "socket-10");
    assert_eq!(socket_worker_thread_name(122), "socket-123");
    assert_eq!(worker_exit_message(WorkerType::Socket(1), WorkerExit::Stopped), "Socket worker 2 stopped");
    assert_eq!(worker_exit_message(WorkerType::Cleaning, WorkerExit::Panicked), "Cleaning worker panicked");
}
