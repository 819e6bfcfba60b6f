//! Time keeping, canonical socket addresses and worker naming shared by all
//! tracker implementations.

use vstd::prelude::*;
use std::time::Instant;

pub mod access_list;
pub mod cli;

use crate::decimal::{decimal, push_decimal};

verus! {

/// Seconds since the server started
#[derive(Debug, Clone, Copy, PartialEq, Eq, Structural)]
pub struct SecondsSinceServerStart(pub u32);

/// Peer, connection or similar valid until this instant
#[derive(Debug, Clone, Copy, PartialEq, Eq, Structural)]
pub struct ValidUntil(pub SecondsSinceServerStart);

impl ValidUntil {
    /// Valid until `offset_seconds` after the current moment. Saturates at
    /// the largest representable moment.
    pub fn new(start_instant: ServerStartInstant, offset_seconds: u32) -> (r: Self)
        ensures
            r.0.0 >= offset_seconds,
    {
        Self::new_with_now_saturating(start_instant.seconds_elapsed(), offset_seconds)
    }

    /// Valid until `offset_seconds` after `now`, as read from the clock.
    /// Saturates at the largest representable moment.
    pub fn new_with_now_saturating(now: SecondsSinceServerStart, offset_seconds: u32) -> (r: Self)
        ensures
            r.0.0 == (if now.0 + offset_seconds > u32::MAX { u32::MAX as int } else { now.0 + offset_seconds }),
    {
        Self(SecondsSinceServerStart(now.0.saturating_add(offset_seconds)))
    }

    pub fn new_with_now(now: SecondsSinceServerStart, offset_seconds: u32) -> (r: Self)
        requires
            now.0 + offset_seconds <= u32::MAX,
        ensures
            r.0.0 == now.0 + offset_seconds,
    {
        Self(SecondsSinceServerStart(now.0 + offset_seconds))
    }

    pub open spec fn spec_valid(&self, now: SecondsSinceServerStart) -> bool {
        self.0.0 > now.0
    }

    #[verifier::when_used_as_spec(spec_valid)]
    pub fn valid(&self, now: SecondsSinceServerStart) -> (r: bool)
        ensures
            r == self.spec_valid(now),
    {
        self.0.0 > now.0
    }
}

#[verifier::external_type_specification]
#[verifier::external_body]
pub struct ExInstant(Instant);

/// Reads the monotonic clock (`std::time::Instant::now`). Nothing is
/// promised of the value.
#[verifier::external_body]
pub(crate) fn instant_now() -> (r: Instant) {
    Instant::now()
}

/// Whole seconds elapsed since `instant` (`Instant::elapsed` followed by
/// `Duration::as_secs`). Depends on the clock, so nothing is promised of the
/// value.
#[verifier::external_body]
pub(crate) fn instant_elapsed_secs(instant: &Instant) -> (r: u64) {
    instant.elapsed().as_secs()
}

#[derive(Debug, Clone, Copy)]
pub struct ServerStartInstant(pub Instant);

/// Number of seconds given by a count of elapsed seconds, saturating at
/// `u32::MAX`
pub open spec fn seconds_saturated(secs: u64) -> u32 {
    if secs > u32::MAX as u64 { u32::MAX } else { secs as u32 }
}

pub fn seconds_from_elapsed(secs: u64) -> (r: SecondsSinceServerStart)
    ensures
        r.0 == seconds_saturated(secs),
{
    if secs > u32::MAX as u64 {
        SecondsSinceServerStart(u32::MAX)
    } else {
        SecondsSinceServerStart(secs as u32)
    }
}

impl ServerStartInstant {
    pub fn new() -> (r: Self) {
        Self(instant_now())
    }

    /// Seconds elapsed since the server started. The count saturates at
    /// `u32::MAX` (about 136 years).
    pub fn seconds_elapsed(&self) -> (r: SecondsSinceServerStart) {
        seconds_from_elapsed(instant_elapsed_secs(&self.0))
    }
}

/// IPv4 socket address as plain values (the address as a big-endian
/// integer, as `u32::from(Ipv4Addr)` gives it)
#[derive(Clone, Copy, Debug, PartialEq, Eq, Structural, Hash)]
pub struct SocketAddrV4 {
    pub ip: u32,
    pub port: u16,
}

/// IPv6 socket address as plain values (the address as a big-endian
/// integer, as `u128::from(Ipv6Addr)` gives it)
#[derive(Clone, Copy, Debug, PartialEq, Eq, Structural, Hash)]
pub struct SocketAddrV6 {
    pub ip: u128,
    pub port: u16,
    pub flowinfo: u32,
    pub scope_id: u32,
}

/// Socket address as plain values
#[derive(Clone, Copy, Debug, PartialEq, Eq, Structural, Hash)]
pub enum SocketAddr {
    V4(SocketAddrV4),
    V6(SocketAddrV6),
}

/// IP address as plain values
#[derive(Clone, Copy, Debug, PartialEq, Eq, Structural, Hash)]
pub enum IpAddr {
    V4(u32),
    V6(u128),
}

impl SocketAddr {
    pub open spec fn spec_port(&self) -> u16 {
        match self {
            SocketAddr::V4(a) => a.port,
            SocketAddr::V6(a) => a.port,
        }
    }

    pub open spec fn spec_ip(&self) -> IpAddr {
        match self {
            SocketAddr::V4(a) => IpAddr::V4(a.ip),
            SocketAddr::V6(a) => IpAddr::V6(a.ip),
        }
    }

    #[verifier::when_used_as_spec(spec_port)]
    pub fn port(&self) -> (r: u16)
        ensures
            r == self.spec_port(),
    {
        match self {
            SocketAddr::V4(a) => a.port,
            SocketAddr::V6(a) => a.port,
        }
    }

    #[verifier::when_used_as_spec(spec_ip)]
    pub fn ip(&self) -> (r: IpAddr)
        ensures
            r == self.spec_ip(),
    {
        match self {
            SocketAddr::V4(a) => IpAddr::V4(a.ip),
            SocketAddr::V6(a) => IpAddr::V6(a.ip),
        }
    }

    pub fn is_ipv4(&self) -> (r: bool)
        ensures
            r == (*self is V4),
    {
        match self {
            SocketAddr::V4(_) => true,
            SocketAddr::V6(_) => false,
        }
    }
}

/// Whether the IPv6 address is an IPv4-mapped address (`::ffff:a.b.c.d`):
/// its 80 high bits are zero and the next 16 bits are all ones
pub open spec fn is_ipv4_mapped(ip: u128) -> bool {
    ip >> 32u128 == 0xffffu128
}

/// The IPv4-mapped IPv6 address of an IPv4 address
pub open spec fn ipv6_mapped(ip: u32) -> u128 {
    0xffff_0000_0000u128 | (ip as u128)
}

/// The IPv4 address held in the low 32 bits of an IPv6 address
pub open spec fn ipv4_part(ip: u128) -> u32 {
    (ip & 0xffff_ffffu128) as u32
}

/// The canonical form of a socket address: IPv4-mapped IPv6 addresses
/// become IPv4 addresses, everything else is kept.
pub open spec fn canonical(addr: SocketAddr) -> SocketAddr {
    match addr {
        SocketAddr::V4(a) => addr,
        SocketAddr::V6(a) => if is_ipv4_mapped(a.ip) {
            SocketAddr::V4(SocketAddrV4 { ip: ipv4_part(a.ip), port: a.port })
        } else {
            addr
        },
    }
}

/// The IPv6 form of a socket address: IPv4 addresses become IPv4-mapped
/// IPv6 addresses with zero flow info and scope id.
pub open spec fn ipv6_mapped_addr(addr: SocketAddr) -> SocketAddr {
    match addr {
        SocketAddr::V4(a) => SocketAddr::V6(SocketAddrV6 {
            ip: ipv6_mapped(a.ip),
            port: a.port,
            flowinfo: 0,
            scope_id: 0,
        }),
        other => other,
    }
}

/// SocketAddr that is not an IPv6-mapped IPv4 address
#[derive(Clone, Copy, Debug, PartialEq, Eq, Structural, Hash)]
pub struct CanonicalSocketAddr(SocketAddr);

impl CanonicalSocketAddr {
    pub closed spec fn view(self) -> SocketAddr {
        self.0
    }

    pub open spec fn wf(self) -> bool {
        canonical(self.view()) == self.view()
    }

    pub fn new(addr: SocketAddr) -> (r: Self)
        ensures
            r.view() == canonical(addr),
    {
        match addr {
            SocketAddr::V4(_) => Self(addr),
            SocketAddr::V6(a) => {
                if a.ip >> 32u128 == 0xffffu128 {
                    Self(SocketAddr::V4(SocketAddrV4 { ip: (a.ip & 0xffff_ffffu128) as u32, port: a.port }))
                } else {
                    Self(addr)
                }
            },
        }
    }

    pub fn get_ipv6_mapped(self) -> (r: SocketAddr)
        ensures
            r == ipv6_mapped_addr(self.view()),
    {
        match self.0 {
            SocketAddr::V4(a) => {
                SocketAddr::V6(SocketAddrV6 {
                    ip: 0xffff_0000_0000u128 | (a.ip as u128),
                    port: a.port,
                    flowinfo: 0,
                    scope_id: 0,
                })
            },
            addr => addr,
        }
    }

    pub fn get(self) -> (r: SocketAddr)
        ensures
            r == self.view(),
    {
        self.0
    }

    pub fn get_ipv4(self) -> (r: Option<SocketAddr>)
        ensures
            r == (if self.view() is V4 { Some(self.view()) } else { None::<SocketAddr> }),
    {
        match self.0 {
            SocketAddr::V4(_) => Some(self.0),
            _ => None,
        }
    }

    pub fn is_ipv4(&self) -> (r: bool)
        ensures
            r == (self.view() is V4),
    {
        self.0.is_ipv4()
    }
}

/// Every address that `CanonicalSocketAddr::new` returns is canonical:
/// canonicalization is idempotent.
pub proof fn law_canonical_idempotent(addr: SocketAddr)
    ensures
        canonical(canonical(addr)) == canonical(addr),
{
    match addr {
        SocketAddr::V6(a) => {
            if is_ipv4_mapped(a.ip) {
            }
        },
        _ => {},
    }
}

/// Canonicalizing the IPv6 form of a canonical address gives the address
/// back: `CanonicalSocketAddr::new(a.get_ipv6_mapped()) == a`.
pub proof fn law_ipv6_mapped_roundtrip(addr: SocketAddr)
    requires
        canonical(addr) == addr,
    ensures
        canonical(ipv6_mapped_addr(addr)) == addr,
{
    match addr {
        SocketAddr::V4(a) => {
            let ip = a.ip;
            assert(((0xffff_0000_0000u128 | (ip as u128)) >> 32u128) == 0xffffu128) by (bit_vector);
            assert((((0xffff_0000_0000u128 | (ip as u128)) & 0xffff_ffffu128) as u32) == ip) by (bit_vector);
        },
        _ => {},
    }
}

#[derive(Debug, Clone, Copy, PartialEq, Eq, Structural)]
pub enum WorkerType {
    Swarm(usize),
    Socket(usize),
    Statistics,
    Signals,
    Cleaning,
    Prometheus,
}

/// The name of a worker, numbering workers from one
pub open spec fn worker_name(w: WorkerType) -> Seq<char> {
    match w {
        WorkerType::Swarm(index) => "Swarm worker "@ + decimal((index + 1) as nat),
        WorkerType::Socket(index) => "Socket worker "@ + decimal((index + 1) as nat),
        WorkerType::Statistics => "Statistics worker"@,
        WorkerType::Signals => "Signals worker"@,
        WorkerType::Cleaning => "Cleaning worker"@,
        WorkerType::Prometheus => "Prometheus worker"@,
    }
}

impl WorkerType {
    /// The name of the worker
    pub fn to_string(&self) -> (r: String)
        requires
            self matches WorkerType::Swarm(index) ==> index < usize::MAX,
            self matches WorkerType::Socket(index) ==> index < usize::MAX,
        ensures
            r@ == worker_name(*self),
    {
        match self {
            Self::Swarm(index) => {
                let mut s = String::from_str("Swarm worker ");
                push_decimal(&mut s, *index + 1);
                s
            },
            Self::Socket(index) => {
                let mut s = String::from_str("Socket worker ");
                push_decimal(&mut s, *index + 1);
                s
            },
            Self::Statistics => String::from_str("Statistics worker"),
            Self::Signals => String::from_str("Signals worker"),
            Self::Cleaning => String::from_str("Cleaning worker"),
            Self::Prometheus => String::from_str("Prometheus worker"),
        }
    }
}

} // verus!
