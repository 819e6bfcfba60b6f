//! The decisions that the worker loops take between their I/O: when a swarm
//! worker refreshes the peer deadline, cleans and publishes statistics, and
//! what a socket worker does with a response whose sending failed.

use vstd::prelude::*;

use crate::common::CanonicalSocketAddr;
use crate::udp::protocol::Response;

verus! {

/// When a swarm worker last cleaned its torrents and last published its
/// statistics, in milliseconds on a monotonic clock
#[derive(Clone, Copy, Debug, PartialEq, Eq, Structural)]
pub struct SwarmWorkerTimers {
    pub last_cleaning_ms: u64,
    pub last_statistics_update_ms: u64,
}

/// What a swarm worker does after handling a request
#[derive(Clone, Copy, Debug, PartialEq, Eq, Structural)]
pub struct PeriodicTasks {
    /// Read the clock for a new deadline of announcing peers
    pub refresh_peer_valid_until: bool,
    /// Clean the torrents and update the statistics
    pub clean: bool,
    /// Publish the torrent counts
    pub publish_statistics: bool,
}

/// How often, in handled requests, a swarm worker looks at its timers
pub const PERIODIC_TASK_REQUESTS: usize = 128;

/// Whether more than `interval_ms` has passed from `last_ms` to `now_ms`
pub open spec fn interval_passed(now_ms: u64, last_ms: u64, interval_ms: u64) -> bool {
    now_ms > last_ms + interval_ms
}

impl SwarmWorkerTimers {
    /// Both timers start at `now_ms`
    pub fn new(now_ms: u64) -> (r: Self)
        ensures
            r.last_cleaning_ms == now_ms,
            r.last_statistics_update_ms == now_ms,
    {
        SwarmWorkerTimers { last_cleaning_ms: now_ms, last_statistics_update_ms: now_ms }
    }

    /// The periodic tasks after the request with the counter: every 128th
    /// request (counting from the first) the worker refreshes the peer
    /// deadline, cleans once the cleaning interval has passed since the
    /// last cleaning, and publishes its statistics, when statistics are
    /// active, once their interval has passed since the last publishing.
    /// A task that is done sets its timer to `now_ms`.
    pub fn periodic_tasks(
        &mut self,
        iter_counter: usize,
        now_ms: u64,
        cleaning_interval_ms: u64,
        statistics_interval_ms: u64,
        statistics_active: bool,
    ) -> (r: PeriodicTasks)
        ensures
            r.refresh_peer_valid_until == (iter_counter % PERIODIC_TASK_REQUESTS == 0),
            r.clean == (iter_counter % PERIODIC_TASK_REQUESTS == 0 && interval_passed(
                now_ms,
                old(self).last_cleaning_ms,
                cleaning_interval_ms,
            )),
            r.publish_statistics == (iter_counter % PERIODIC_TASK_REQUESTS == 0 && statistics_active
                && interval_passed(now_ms, old(self).last_statistics_update_ms, statistics_interval_ms)),
            final(self).last_cleaning_ms == if r.clean { now_ms } else { old(self).last_cleaning_ms },
            final(self).last_statistics_update_ms == if r.publish_statistics {
                now_ms
            } else {
                old(self).last_statistics_update_ms
            },
    {
        if iter_counter % PERIODIC_TASK_REQUESTS != 0 {
            return PeriodicTasks { refresh_peer_valid_until: false, clean: false, publish_statistics: false };
        }
        let clean = now_ms > self.last_cleaning_ms && now_ms - self.last_cleaning_ms > cleaning_interval_ms;
        if clean {
            self.last_cleaning_ms = now_ms;
        }
        let publish_statistics = statistics_active && now_ms > self.last_statistics_update_ms && now_ms
            - self.last_statistics_update_ms > statistics_interval_ms;
        if publish_statistics {
            self.last_statistics_update_ms = now_ms;
        }
        PeriodicTasks { refresh_peer_valid_until: true, clean, publish_statistics }
    }
}

/// Why sending a response failed
#[derive(Clone, Copy, Debug, PartialEq, Eq, Structural)]
pub enum SendFailure {
    /// The socket would block, or the system is out of buffer space: the
    /// response can be sent again later
    Retryable,
    /// Any other error
    Other,
}

/// What became of a response whose sending failed
#[derive(Clone, Copy, Debug, PartialEq, Eq, Structural)]
pub enum FailedResponseFate {
    /// Kept to be sent again
    Queued,
    /// Dropped because the resend buffer is full
    DroppedBufferFull,
    /// Dropped: no resend buffer, resending not allowed, or an error that
    /// resending would not mend
    Dropped,
}

/// The responses whose sending failed and that wait to be sent again, if
/// the worker keeps any
pub struct ResendBuffer {
    pub entries: Option<Vec<(CanonicalSocketAddr, Response)>>,
}

impl ResendBuffer {
    /// A resend buffer exactly when responses may be kept, that is when
    /// its maximum length is above zero
    pub fn new(resend_buffer_max_len: usize) -> (r: Self)
        ensures
            r.entries is Some <==> resend_buffer_max_len > 0,
            r.entries matches Some(v) ==> v@.len() == 0,
    {
        if resend_buffer_max_len > 0 {
            ResendBuffer { entries: Some(Vec::new()) }
        } else {
            ResendBuffer { entries: None }
        }
    }

    /// What to do with a response whose sending failed: keep it at the end
    /// of the buffer if there is one, resending is allowed, the error is
    /// one that resending can mend and the buffer is below its maximum
    /// length; drop it otherwise
    pub fn after_failed_send(
        &mut self,
        resend_buffer_max_len: usize,
        disable_resend_buffer: bool,
        failure: SendFailure,
        addr: CanonicalSocketAddr,
        response: Response,
    ) -> (r: FailedResponseFate)
        ensures
            match old(self).entries {
                Some(v) if !disable_resend_buffer && failure is Retryable => if v@.len() < resend_buffer_max_len {
                    &&& r == FailedResponseFate::Queued
                    &&& final(self).entries matches Some(w) && w@ == v@.push((addr, response))
                } else {
                    &&& r == FailedResponseFate::DroppedBufferFull
                    &&& final(self).entries == old(self).entries
                },
                _ => r == FailedResponseFate::Dropped && final(self).entries == old(self).entries,
            },
    {
        match &mut self.entries {
            Some(v) => {
                if disable_resend_buffer || failure == SendFailure::Other {
                    FailedResponseFate::Dropped
                } else if v.len() < resend_buffer_max_len {
                    v.push((addr, response));
                    FailedResponseFate::Queued
                } else {
                    FailedResponseFate::DroppedBufferFull
                }
            },
            None => FailedResponseFate::Dropped,
        }
    }

    /// Takes out the kept responses, in the order they were kept, to be
    /// sent again with resending not allowed; the buffer is left empty
    pub fn take_for_resending(&mut self) -> (r: Vec<(CanonicalSocketAddr, Response)>)
        ensures
            match old(self).entries {
                Some(v) => r@ == v@ && (final(self).entries matches Some(w) && w@.len() == 0),
                None => r@.len() == 0 && final(self).entries is None,
            },
    {
        match &mut self.entries {
            Some(v) => {
                let mut taken: Vec<(CanonicalSocketAddr, Response)> = Vec::new();
                std::mem::swap(v, &mut taken);
                taken
            },
            None => Vec::new(),
        }
    }
}

} // verus!
