//! Connection ids: created for a client address and checked when the client
//! sends them back.
//!
//! The purpose of connection ids is to make IP spoofing costly, mainly to
//! prevent the tracker from being used as an amplification vector for DDoS
//! attacks. By including 32 bits of BLAKE3 keyed hash output in the ids, an
//! attacker would have to make on average 2^31 attempts to correctly guess a
//! single hash. Furthermore, such a hash would only be valid for at most
//! `max_connection_age` seconds, a short duration to get value for the
//! bandwidth spent brute forcing it.
//!
//! Structure of a created connection id (the little-endian bytes of its
//! inner `i64`):
//! - bytes 0..4: creation time as number of seconds after the validator was
//!   created, as `u32` bytes. A `u32` fits around 136 years in seconds.
//! - bytes 4..8: truncated keyed BLAKE3 hash of
//!     - the previous four bytes
//!     - the octets of the client IP address

use vstd::prelude::*;

use std::time::Instant;

use crate::common::{instant_elapsed_secs, instant_now, CanonicalSocketAddr, IpAddr};
use crate::udp::config::Config;
use crate::udp::protocol::ConnectionId;

verus! {

#[verifier::external_type_specification]
#[verifier::external_body]
pub struct ExGetrandomError(getrandom::Error);

/// Fills a key with random bytes from the system's source
/// (`getrandom::getrandom`) and hands back the error of any failure.
/// Nothing is promised of the bytes.
#[verifier::external_body]
fn random_key() -> (r: Result<[u8; 32], getrandom::Error>) {
    let mut key = [0u8; 32];
    getrandom::getrandom(&mut key).map(|()| key)
}

/// The first four bytes of the BLAKE3 extendable output of `input` under the
/// 32 byte `key`
pub uninterp spec fn blake3_keyed_output4(key: Seq<u8>, input: Seq<u8>) -> [u8; 4];

/// BLAKE3 in keyed mode (`Hasher::new_keyed`, `Hasher::update`,
/// `Hasher::finalize_xof`, `OutputReader::fill`): the first four bytes of the
/// output for `input`, which depend on the key and the input alone.
#[verifier::external_body]
fn keyed_hash4(key: &[u8; 32], input: &[u8]) -> (r: [u8; 4])
    ensures
        r == blake3_keyed_output4(key@, input@),
{
    let mut hasher = blake3::Hasher::new_keyed(key);
    hasher.update(input);
    let mut hash = [0u8; 4];
    hasher.finalize_xof().fill(&mut hash);
    hash
}

/// `constant_time_eq::constant_time_eq`: whether the two byte strings are
/// equal, compared in a time that does not depend on their contents
#[verifier::external_body]
fn bytes_equal_constant_time(a: &[u8], b: &[u8]) -> (r: bool)
    ensures
        r == (a@ == b@),
{
    constant_time_eq::constant_time_eq(a, b)
}

/// The four little-endian bytes of a `u32`
pub open spec fn le_bytes(x: u32) -> Seq<u8> {
    seq![x as u8, (x >> 8u32) as u8, (x >> 16u32) as u8, (x >> 24u32) as u8]
}

/// The `u32` of four little-endian bytes
pub open spec fn u32_from_le(b: [u8; 4]) -> u32 {
    (b[0] as u32) | ((b[1] as u32) << 8u32) | ((b[2] as u32) << 16u32) | ((b[3] as u32) << 24u32)
}

/// The octets of an IP address, most significant first (`octets()`)
pub open spec fn ip_octets(ip: IpAddr) -> Seq<u8> {
    match ip {
        IpAddr::V4(a) => Seq::new(4, |i: int| (a >> ((8 * (3 - i)) as u32)) as u8),
        IpAddr::V6(a) => Seq::new(16, |i: int| (a >> ((8 * (15 - i)) as u128)) as u8),
    }
}

/// The hash in a connection id created `elapsed` seconds after the start for
/// a client at `ip`
pub open spec fn connection_hash(key: Seq<u8>, elapsed: u32, ip: IpAddr) -> [u8; 4] {
    blake3_keyed_output4(key, le_bytes(elapsed) + ip_octets(ip))
}

/// The connection id created `elapsed` seconds after the start for a client
/// at `ip`: the elapsed seconds in the low half, the hash in the high half
pub open spec fn connection_id_of(key: Seq<u8>, elapsed: u32, ip: IpAddr) -> i64 {
    ((elapsed as u64) | ((u32_from_le(connection_hash(key, elapsed, ip)) as u64) << 32u64)) as i64
}

/// Whether a connection id is accepted from a client at `ip`, `seconds`
/// seconds after the start: its hash is the one for its creation time and
/// the address, it has not expired, and its creation time is not more than
/// a minute ahead
pub open spec fn connection_id_accepted(key: Seq<u8>, max_age: u64, seconds: u32, ip: IpAddr, id: i64) -> bool {
    let v = id as u64;
    let client_elapsed = v as u32;
    &&& le_bytes((v >> 32u64) as u32) == connection_hash(key, client_elapsed, ip)@
    &&& client_elapsed + max_age > seconds
    &&& client_elapsed <= seconds + 60
}

/// Error of creating a connection validator
#[derive(Clone, Copy, Debug, PartialEq, Eq, Structural)]
pub enum ConnectionValidatorError {
    /// Couldn't get random bytes for ConnectionValidator key
    RandomKey,
}

/// HMAC (BLAKE3) based ConnectionId creator and validator
///
/// Method update_elapsed must be called at least once a minute.
#[derive(Clone, Copy)]
pub struct ConnectionValidator {
    start_time: Instant,
    max_connection_age: u64,
    key: [u8; 32],
    seconds_since_start: u32,
}

impl ConnectionValidator {
    /// The key of the keyed hash
    pub closed spec fn key(&self) -> Seq<u8> {
        self.key@
    }

    /// How long a connection id stays valid, in seconds
    pub closed spec fn max_connection_age(&self) -> u64 {
        self.max_connection_age
    }

    /// The seconds since the start, as last updated
    pub closed spec fn seconds_since_start(&self) -> u32 {
        self.seconds_since_start
    }

    pub closed spec fn start_time(&self) -> Instant {
        self.start_time
    }

    pub open spec fn wf(&self) -> bool {
        self.max_connection_age() <= u32::MAX
    }

    /// Create new instance. Must be created once and cloned if used in
    /// several threads.
    pub fn new(config: &Config) -> (r: Result<Self, ConnectionValidatorError>)
        ensures
            match r {
                Ok(v) => v.wf() && v.max_connection_age() == config.cleaning.max_connection_age
                    && v.seconds_since_start() == 0 && v.key().len() == 32,
                Err(e) => e == ConnectionValidatorError::RandomKey,
            },
    {
        Self::with_random_key(config, random_key())
    }

    /// The validator for the outcome of drawing its key: one with that key,
    /// started now, or the error of a failed draw
    pub fn with_random_key(config: &Config, random_key: Result<[u8; 32], getrandom::Error>) -> (r: Result<
        Self,
        ConnectionValidatorError,
    >)
        ensures
            match random_key {
                Ok(key) => r matches Ok(v) && v.wf() && v.key() == key@ && v.max_connection_age()
                    == config.cleaning.max_connection_age && v.seconds_since_start() == 0,
                Err(_) => r == Err::<Self, ConnectionValidatorError>(ConnectionValidatorError::RandomKey),
            },
    {
        let key = match random_key {
            Ok(key) => key,
            Err(_) => {
                return Err(ConnectionValidatorError::RandomKey);
            },
        };
        Ok(Self {
            key,
            start_time: instant_now(),
            max_connection_age: config.cleaning.max_connection_age as u64,
            seconds_since_start: 0,
        })
    }

    pub fn create_connection_id(&mut self, source_addr: CanonicalSocketAddr) -> (r: ConnectionId)
        ensures
            *final(self) == *old(self),
            r == ConnectionId(connection_id_of(old(self).key(), old(self).seconds_since_start(), source_addr@.spec_ip())),
    {
        let elapsed = self.seconds_since_start;
        let hash = self.hash(elapsed, source_addr.get().ip());
        let hash_value = u32_from_le_bytes(hash);
        ConnectionId(((elapsed as u64) | ((hash_value as u64) << 32u64)) as i64)
    }

    pub fn connection_id_valid(&mut self, source_addr: CanonicalSocketAddr, connection_id: ConnectionId) -> (r: bool)
        requires
            old(self).wf(),
        ensures
            *final(self) == *old(self),
            r == connection_id_accepted(
                old(self).key(),
                old(self).max_connection_age(),
                old(self).seconds_since_start(),
                source_addr@.spec_ip(),
                connection_id.0,
            ),
    {
        let v = connection_id.0 as u64;
        let client_elapsed = v as u32;
        let hash = le_bytes_of((v >> 32u64) as u32);

        let expected = self.hash(client_elapsed, source_addr.get().ip());
        if !bytes_equal_constant_time(&hash, &expected) {
            return false;
        }

        let seconds_since_start = self.seconds_since_start as u64;
        let client_elapsed = client_elapsed as u64;
        let client_expiration_time = client_elapsed + self.max_connection_age;

        // In addition to checking if the client connection is expired,
        // disallow client_elapsed values that are too far in future and thus
        // could not have been sent by the tracker. This prevents brute forcing
        // with `u32::MAX` as 'elapsed' part of ConnectionId to find a hash that
        // works until the tracker is restarted.
        let client_not_expired = client_expiration_time > seconds_since_start;
        let client_elapsed_not_in_far_future = client_elapsed <= (seconds_since_start + 60);

        client_not_expired && client_elapsed_not_in_far_future
    }

    /// Reads the seconds since the validator was created from the clock
    pub fn update_elapsed(&mut self)
        ensures
            final(self).key() == old(self).key(),
            final(self).max_connection_age() == old(self).max_connection_age(),
            final(self).start_time() == old(self).start_time(),
    {
        let elapsed_secs = instant_elapsed_secs(&self.start_time);
        self.set_elapsed(elapsed_secs);
    }

    /// Takes the whole seconds elapsed since the validator was created, as
    /// read from the clock; only their low 32 bits are kept
    pub fn set_elapsed(&mut self, elapsed_secs: u64)
        ensures
            final(self).seconds_since_start() == elapsed_secs as u32,
            final(self).key() == old(self).key(),
            final(self).max_connection_age() == old(self).max_connection_age(),
            final(self).start_time() == old(self).start_time(),
    {
        self.seconds_since_start = elapsed_secs as u32;
    }

    fn hash(&self, elapsed: u32, ip_addr: IpAddr) -> (r: [u8; 4])
        ensures
            r == connection_hash(self.key(), elapsed, ip_addr),
    {
        let elapsed_bytes = le_bytes_of(elapsed);
        let mut input: Vec<u8> = Vec::new();
        let mut i: usize = 0;
        while i < 4
            invariant
                i <= 4,
                input@ == elapsed_bytes@.take(i as int),
            decreases 4 - i,
        {
            input.push(elapsed_bytes[i]);
            i = i + 1;
        }
        let mut octets = ip_octets_of(ip_addr);
        input.append(&mut octets);
        proof {
            assert(elapsed_bytes@.take(4) =~= elapsed_bytes@);
        }
        keyed_hash4(&self.key, input.as_slice())
    }
}

fn le_bytes_of(x: u32) -> (r: [u8; 4])
    ensures
        r@ == le_bytes(x),
{
    let r = [x as u8, (x >> 8u32) as u8, (x >> 16u32) as u8, (x >> 24u32) as u8];
    assert(r@ =~= le_bytes(x));
    r
}

fn u32_from_le_bytes(b: [u8; 4]) -> (r: u32)
    ensures
        r == u32_from_le(b),
{
    (b[0] as u32) | ((b[1] as u32) << 8u32) | ((b[2] as u32) << 16u32) | ((b[3] as u32) << 24u32)
}

fn ip_octets_of(ip: IpAddr) -> (r: Vec<u8>)
    ensures
        r@ == ip_octets(ip),
{
    let mut r: Vec<u8> = Vec::new();
    match ip {
        IpAddr::V4(a) => {
            let mut i: u32 = 0;
            while i < 4
                invariant
                    i <= 4,
                    r@ == ip_octets(ip).take(i as int),
                    ip == IpAddr::V4(a),
                decreases 4 - i,
            {
                r.push((a >> (8 * (3 - i))) as u8);
                proof {
                    assert(r@ =~= ip_octets(ip).take(i + 1));
                }
                i = i + 1;
            }
        },
        IpAddr::V6(a) => {
            let mut i: u128 = 0;
            while i < 16
                invariant
                    i <= 16,
                    r@ == ip_octets(ip).take(i as int),
                    ip == IpAddr::V6(a),
                decreases 16 - i,
            {
                r.push((a >> (8 * (15 - i))) as u8);
                proof {
                    assert(r@ =~= ip_octets(ip).take(i + 1));
                }
                i = i + 1;
            }
        },
    }
    assert(r@ =~= ip_octets(ip));
    r
}

/// A connection id is accepted from the address it was created for, at the
/// time it was created, exactly when connection ids may be used for a
/// while at all (a positive maximum age).
pub proof fn law_created_connection_id_accepted(key: Seq<u8>, max_age: u64, seconds: u32, ip: IpAddr)
    ensures
        connection_id_accepted(key, max_age, seconds, ip, connection_id_of(key, seconds, ip)) == (max_age > 0),
{
    let h = connection_hash(key, seconds, ip);
    let hv = u32_from_le(h);
    let v = (seconds as u64) | ((hv as u64) << 32u64);
    assert(((v as i64) as u64) == v) by (bit_vector);
    assert((v as u32) == seconds) by (bit_vector)
        requires
            v == (seconds as u64) | ((hv as u64) << 32u64),
    ;
    assert(((v >> 32u64) as u32) == hv) by (bit_vector)
        requires
            v == (seconds as u64) | ((hv as u64) << 32u64),
    ;
    let b0 = h[0];
    let b1 = h[1];
    let b2 = h[2];
    let b3 = h[3];
    assert(hv == (b0 as u32) | ((b1 as u32) << 8u32) | ((b2 as u32) << 16u32) | ((b3 as u32) << 24u32));
    assert((hv as u8) == b0 && ((hv >> 8u32) as u8) == b1 && ((hv >> 16u32) as u8) == b2 && ((hv >> 24u32)
        as u8) == b3) by (bit_vector)
        requires
            hv == (b0 as u32) | ((b1 as u32) << 8u32) | ((b2 as u32) << 16u32) | ((b3 as u32) << 24u32),
    ;
    assert(le_bytes(hv) =~= h@);
}

} // verus!
