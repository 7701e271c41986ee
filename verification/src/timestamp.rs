//! Wall-clock time in whole seconds, and the pair of times that an object
//! carries: when it was made and when it was last changed.

use vstd::prelude::*;
use std::collections::hash_map::DefaultHasher;
use std::hash::{Hash, Hasher};
use std::time::{Duration, SystemTime, SystemTimeError, UNIX_EPOCH};

verus! {

/// `std::time::SystemTime`, a reading of the clock. Nothing is known of a
/// value.
#[verifier::external_type_specification]
#[verifier::external_body]
pub struct ExSystemTime(SystemTime);

/// `std::time::SystemTimeError`, the failure to measure a time that lies
/// before another. Nothing is known of a value.
#[verifier::external_type_specification]
#[verifier::external_body]
pub struct ExSystemTimeError(SystemTimeError);

/// `SystemTime::now`: the reading of the system's clock. Nothing is claimed
/// of it.
#[verifier::external_body]
fn clock_now() -> (now: SystemTime) {
    SystemTime::now()
}

/// `SystemTime::duration_since` with `UNIX_EPOCH`: how long after the epoch
/// `at` lies, and an error where it lies before. Nothing is claimed of the
/// result.
#[verifier::external_body]
fn since_epoch(at: &SystemTime) -> (elapsed: Result<Duration, SystemTimeError>) {
    at.duration_since(UNIX_EPOCH)
}

/// `Duration::as_secs`: the whole seconds of a duration. Nothing is claimed
/// of the result.
#[verifier::external_body]
fn whole_secs(elapsed: &Duration) -> (secs: u64) {
    elapsed.as_secs()
}

/// `Duration::as_nanos`: a duration in nanoseconds. Nothing is claimed of
/// the result.
#[verifier::external_body]
fn whole_nanos(elapsed: &Duration) -> (nanos: u128) {
    elapsed.as_nanos()
}

/// `Hash::hash` of the pair of a name and a number of seconds: feeds both
/// to the hasher. Nothing is claimed of what the hasher then holds.
#[verifier::external_body]
fn hash_pair(name: &str, secs: u64, hasher: &mut DefaultHasher) {
    (name, secs).hash(hasher);
}

/// Nanoseconds since the epoch by the system's clock; 0 where the clock
/// stands before the epoch.
pub fn epoch_ns() -> u128 {
    match since_epoch(&clock_now()) {
        Ok(time) => nanos_or_zero(Some(whole_nanos(&time))),
        Err(_) => nanos_or_zero(None),
    }
}

/// Seconds since the epoch by the system's clock; 0 where the clock stands
/// before the epoch.
pub fn epoch_secs() -> u64 {
    match since_epoch(&clock_now()) {
        Ok(time) => secs_or_zero(Some(whole_secs(&time))),
        Err(_) => secs_or_zero(None),
    }
}

/// When an object was made and when it was last changed, in seconds since
/// the epoch.
#[derive(Debug, Clone, Copy, Hash, PartialEq, Eq, Structural)]
pub struct Timestamp {
    pub created_at: u64,
    pub updated_at: u64,
}

impl Timestamp {
    /// An object made and last changed at the given times.
    pub fn from_secs(created_at: u64, updated_at: u64) -> (r: Timestamp)
        ensures
            r.created_at == created_at,
            r.updated_at == updated_at,
    {
        Timestamp { created_at, updated_at }
    }

    /// An object made now, by two readings of the clock.
    pub fn new() -> Timestamp {
        let created_at = epoch_secs();
        let updated_at = epoch_secs();
        Self::from_secs(created_at, updated_at)
    }

    /// A number that tells apart objects of different names or made at
    /// different times, by the default hasher.
    pub fn hash(&self, name: &str) -> u64 {
        let mut hasher = DefaultHasher::new();
        hash_pair(name, self.created_at, &mut hasher);
        hasher.finish()
    }

    /// Records a change at the given time.
    pub fn touch(&mut self, now: u64)
        ensures
            final(self).created_at == old(self).created_at,
            final(self).updated_at == now,
    {
        self.updated_at = now;
    }

    /// Records a change now, by the clock.
    pub fn update_now(&mut self)
        ensures
            final(self).created_at == old(self).created_at,
    {
        let now = epoch_secs();
        self.touch(now);
    }
}

impl Default for Timestamp {
    /// An object made now; see `new`.
    fn default() -> Timestamp {
        Timestamp::new()
    }
}

/// What a reading of the clock counts as, in nanoseconds: the time measured
/// since the epoch, and 0 where the clock stands before the epoch and
/// nothing was measured.
pub fn nanos_or_zero(measured: Option<u128>) -> (r: u128)
    ensures
        r == match measured {
            Some(nanos) => nanos,
            None => 0,
        },
{
    match measured {
        Some(nanos) => nanos,
        None => 0,
    }
}

/// What a reading of the clock counts as, in seconds: the time measured
/// since the epoch, and 0 where the clock stands before the epoch and
/// nothing was measured.
pub fn secs_or_zero(measured: Option<u64>) -> (r: u64)
    ensures
        r == match measured {
            Some(secs) => secs,
            None => 0,
        },
{
    match measured {
        Some(secs) => secs,
        None => 0,
    }
}

} // verus!
