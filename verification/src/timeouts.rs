//! Timeouts of a connection and the clocks of the bookkeeping.

use std::sync::atomic::{AtomicU64, Ordering};
use std::time::{Duration, Instant, SystemTime, SystemTimeError};
use vstd::prelude::*;

verus! {

#[verifier::external_type_specification]
#[verifier::external_body]
pub struct ExInstant(Instant);

#[verifier::external_type_specification]
#[verifier::external_body]
pub struct ExSystemTime(SystemTime);

#[verifier::external_type_specification]
#[verifier::external_body]
pub struct ExSystemTimeError(SystemTimeError);

/// The duration of a whole number of seconds.
pub uninterp spec fn duration_from_secs(secs: u64) -> Duration;

/// `Duration::from_secs` gives the duration of `secs` whole seconds, a
/// function of `secs` alone.
pub assume_specification[ Duration::from_secs ](secs: u64) -> (duration: Duration)
    ensures
        duration == duration_from_secs(secs),
;

/// `Duration::as_secs` gives the whole seconds of a duration.  Nothing is
/// claimed of them.
pub assume_specification[ Duration::as_secs ](duration: &Duration) -> u64;

/// `Instant::now` reads the monotonic clock.  Nothing is claimed of it.
pub assume_specification[ Instant::now ]() -> Instant;

/// `Instant::elapsed` gives the time since an instant.  Nothing is claimed
/// of it.
pub assume_specification[ Instant::elapsed ](instant: &Instant) -> Duration;

/// `SystemTime::now` reads the system clock.  Nothing is claimed of it.
pub assume_specification[ SystemTime::now ]() -> SystemTime;

/// `SystemTime::duration_since` gives the time from `earlier` to `time`, or
/// an error where `earlier` is the later one.  Nothing is claimed of either.
pub assume_specification[ SystemTime::duration_since ](time: &SystemTime, earlier: SystemTime) -> Result<
    Duration,
    SystemTimeError,
>;

/// Hands out `std::time::UNIX_EPOCH`.
#[verifier::external_body]
fn unix_epoch() -> SystemTime {
    std::time::UNIX_EPOCH
}

/// The number of seconds that a timeout lasts unless another is given.
pub const DEFAULT_TIMEOUT_SECS: u64 = 20;

/// Network timeouts
#[derive(Clone, Copy)]
pub struct Timeouts {
    read: Duration,
    write: Duration,
}

impl Timeouts {
    /// The read timeout.
    pub closed spec fn spec_read(&self) -> Duration {
        self.read
    }

    /// The write timeout.
    pub closed spec fn spec_write(&self) -> Duration {
        self.write
    }

    /// The timeout of either direction unless another is given.
    pub fn default_timeout() -> (timeout: Duration)
        ensures
            timeout == duration_from_secs(DEFAULT_TIMEOUT_SECS),
    {
        Duration::from_secs(DEFAULT_TIMEOUT_SECS)
    }

    /// Timeouts of the given durations.
    pub fn with_durations(read: Duration, write: Duration) -> (timeouts: Self)
        ensures
            timeouts.spec_read() == read,
            timeouts.spec_write() == write,
    {
        Self { read, write }
    }

    /// Read timeout
    pub fn read(&self) -> (timeout: Duration)
        ensures
            timeout == self.spec_read(),
    {
        self.read
    }

    /// Write timeout
    pub fn write(&self) -> (timeout: Duration)
        ensures
            timeout == self.spec_write(),
    {
        self.write
    }
}

impl Default for Timeouts {
    fn default() -> (timeouts: Self)
        ensures
            timeouts.spec_read() == duration_from_secs(DEFAULT_TIMEOUT_SECS),
            timeouts.spec_write() == duration_from_secs(DEFAULT_TIMEOUT_SECS),
    {
        Self { read: Self::default_timeout(), write: Self::default_timeout() }
    }
}

/// The 32-bit version number that stands for `secs` seconds since the epoch:
/// the one signed 32-bit number that differs from `secs` by a multiple of
/// 2^32.
pub open spec fn version_of(secs: u64, version: i32) -> bool {
    (secs - version) % 0x1_0000_0000 == 0
}

/// True when `since` is what the system clock, read as `now`, gave for the
/// time since the epoch.
pub closed spec fn clock_read(now: SystemTime, since: Result<Duration, SystemTimeError>) -> bool {
    exists|epoch: SystemTime| #[trigger]
        call_ensures(SystemTime::duration_since, (&now, epoch), since) && call_ensures(
            SystemTime::now,
            (),
            now,
        ) && call_ensures(unix_epoch, (), epoch)
}

/// True when `secs` is the number of whole seconds since the epoch that a
/// reading of the system clock gave, or 0 for a clock that stands before
/// the epoch.
pub open spec fn seconds_read(secs: u64) -> bool {
    exists|now: SystemTime, since: Result<Duration, SystemTimeError>| #[trigger]
        clock_read(now, since) && (match since {
            Ok(duration) => call_ensures(Duration::as_secs, (&duration,), secs),
            Err(_) => secs == 0,
        })
}

/// Data structure version
pub struct Version;

impl Version {
    /// The version number of the present second: that of the seconds since
    /// the epoch that the system clock gives.
    pub fn get() -> (version: i32)
        ensures
            exists|secs: u64| #[trigger] seconds_read(secs) && version_of(secs, version),
    {
        let now = SystemTime::now();
        let epoch = unix_epoch();
        let since = now.duration_since(epoch);
        assert(call_ensures(SystemTime::duration_since, (&now, epoch), since));
        assert(clock_read(now, since));
        let secs = match since {
            Ok(duration) => duration.as_secs(),
            Err(_) => 0,
        };
        assert(seconds_read(secs));
        Self::at(secs)
    }

    /// The version number of the second that lies `secs` after the epoch.
    pub fn at(secs: u64) -> (version: i32)
        ensures
            version_of(secs, version),
    {
        let low: u64 = secs % 0x1_0000_0000;
        assert((secs - low) % 0x1_0000_0000 == 0) by {
            vstd::arithmetic::div_mod::lemma_fundamental_div_mod(secs as int, 0x1_0000_0000);
            vstd::arithmetic::div_mod::lemma_mod_multiples_basic(secs as int / 0x1_0000_0000, 0x1_0000_0000);
        }
        if low < 0x8000_0000 {
            low as i32
        } else {
            let version: i32 = (low as i64 - 0x1_0000_0000) as i32;
            assert((secs - version) % 0x1_0000_0000 == 0) by {
                vstd::arithmetic::div_mod::lemma_mod_add_multiples_vanish(secs - low, 0x1_0000_0000);
            }
            version
        }
    }
}

/// The seconds between the last refresh and now, where the clock has not
/// gone back.
pub open spec fn age(elapsed: u64, updated: u64) -> int {
    if elapsed >= updated {
        elapsed - updated
    } else {
        0
    }
}

/// Data structure update timestamp
pub struct UpdatedAt {
    started: Instant,
    updated: AtomicU64,
}

impl UpdatedAt {
    /// The instant from which seconds are counted.
    pub closed spec fn started(&self) -> Instant {
        self.started
    }

    /// The holder of the second of the last update.
    pub closed spec fn updated(&self) -> AtomicU64 {
        self.updated
    }

    /// A timestamp that counts from the present instant, with second 0 as
    /// the last update.
    pub fn new() -> (made: Self)
        ensures
            call_ensures(Instant::now, (), made.started()),
            call_ensures(AtomicU64::new, (0u64,), made.updated()),
    {
        Self { started: Instant::now(), updated: AtomicU64::new(0) }
    }

    /// True when `elapsed` is the number of whole seconds since the start
    /// that a reading of the clock gave.
    pub open spec fn elapsed_read(&self, elapsed: u64) -> bool {
        exists|since: Duration| #[trigger]
            call_ensures(Instant::elapsed, (&self.started(),), since) && call_ensures(
                Duration::as_secs,
                (&since,),
                elapsed,
            )
    }

    /// True when `updated` is the second of the last update as it was read.
    pub open spec fn updated_read(&self, updated: u64) -> bool {
        call_ensures(AtomicU64::load, (&self.updated(), Ordering::Relaxed), updated)
    }

    /// True when `second` was stored as the second of the last update.
    pub open spec fn stored(&self, second: u64) -> bool {
        call_ensures(AtomicU64::store, (&self.updated(), second, Ordering::Relaxed), ())
    }

    /// Records the present moment as the last update: reads the seconds
    /// since the start and stores them.
    pub fn refresh(&self)
        ensures
            exists|elapsed: u64| #[trigger] self.elapsed_read(elapsed) && self.stored(elapsed),
    {
        let since = self.started.elapsed();
        let elapsed = since.as_secs();
        assert(call_ensures(Instant::elapsed, (&self.started(),), since));
        assert(self.elapsed_read(elapsed));
        self.updated.store(elapsed, Ordering::Relaxed)
    }

    /// Tells whether the last update lies `timeout` seconds back or more,
    /// by the seconds since the start and the second of the last update as
    /// they are read.
    pub fn is_expired(&self, timeout: u64) -> (expired: bool)
        ensures
            exists|elapsed: u64, updated: u64|
                #![trigger self.elapsed_read(elapsed), self.updated_read(updated)]
                self.elapsed_read(elapsed) && self.updated_read(updated) && expired == (age(elapsed, updated)
                    >= timeout),
    {
        let since = self.started.elapsed();
        let elapsed = since.as_secs();
        assert(call_ensures(Instant::elapsed, (&self.started(),), since));
        assert(self.elapsed_read(elapsed));
        let updated = self.updated.load(Ordering::Relaxed);
        assert(self.updated_read(updated));
        Self::is_expired_at(elapsed, updated, timeout)
    }

    /// Tells whether an update at second `updated` lies `timeout` seconds or
    /// more before second `elapsed`.
    pub fn is_expired_at(elapsed: u64, updated: u64, timeout: u64) -> (expired: bool)
        ensures
            expired == (age(elapsed, updated) >= timeout),
    {
        if elapsed >= updated {
            elapsed - updated >= timeout
        } else {
            0 >= timeout
        }
    }
}

} // verus!
