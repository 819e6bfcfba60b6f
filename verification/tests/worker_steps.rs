use aquatic::common::{CanonicalSocketAddr, SocketAddr, SocketAddrV4};
use aquatic::udp::protocol::{ConnectResponse, ConnectionId, Response, TransactionId};
use aquatic::udp::worker_steps::{FailedResponseFate, ResendBuffer, SendFailure, SwarmWorkerTimers};

fn response(n: i32) -> Response {
    Response::Connect(ConnectResponse { connection_id: ConnectionId(1), transaction_id: TransactionId(n) })
}

#[test]
fn test_periodic_tasks() {
    let mut timers = SwarmWorkerTimers::new(1_000);

    // Only every 128th request looks at the timers
    let tasks = timers.periodic_tasks(1, 100_000, 10, 10, true);
    assert!(!tasks.refresh_peer_valid_until && !tasks.clean && !tasks.publish_statistics);

    let tasks = timers.periodic_tasks(128, 1_005, 10, 10, true);
    assert!(tasks.refresh_peer_valid_until && !tasks.clean && !tasks.publish_statistics);

    let tasks = timers.periodic_tasks(256, 1_011, 10, 20, true);
    assert!(tasks.clean && !tasks.publish_statistics);
    assert_eq!(timers.last_cleaning_ms, 1_011);
    assert_eq!(timers.last_statistics_update_ms, 1_000);

    // Statistics are published only when active
    let tasks = timers.periodic_tasks(0, 1_050, 10, 20, false);
    assert!(tasks.clean && !tasks.publish_statistics);
    let tasks = timers.periodic_tasks(0, 1_051, 10, 20, true);
    assert!(!tasks.clean && tasks.publish_statistics);
    assert_eq!(timers.last_statistics_update_ms, 1_051);
}

#[test]
fn test_resend_buffer() {
    let addr = CanonicalSocketAddr::new(SocketAddr::V4(SocketAddrV4 { ip: 1, port: 1 }));

    let mut none = ResendBuffer::new(0);
    assert!(none.entries.is_none());
    assert_eq!(none.after_failed_send(0, false, SendFailure::Retryable, addr, response(1)), FailedResponseFate::Dropped);

    let mut buffer = ResendBuffer::new(2);
    assert_eq!(buffer.after_failed_send(2, false, SendFailure::Other, addr, response(1)), FailedResponseFate::Dropped);
    assert_eq!(buffer.after_failed_send(2, true, SendFailure::Retryable, addr, response(1)), FailedResponseFate::Dropped);
    assert_eq!(buffer.after_failed_send(2, false, SendFailure::Retryable, addr, response(1)), FailedResponseFate::Queued);
    assert_eq!(buffer.after_failed_send(2, false, SendFailure::Retryable, addr, response(2)), FailedResponseFate::Queued);
    assert_eq!(
        buffer.after_failed_send(2, false, SendFailure::Retryable, addr, response(3)),
        FailedResponseFate::DroppedBufferFull
    );

    let taken = buffer.take_for_resending();
    assert_eq!(taken, vec![(addr, response(1)), (addr, response(2))]);
    assert_eq!(buffer.entries.as_ref().map(|v| v.len()), Some(0));
    assert!(none.take_for_resending().is_empty());
}
