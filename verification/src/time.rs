//! Durations and points in time, and the terms they become.
use vstd::prelude::*;

use crate::error::{Error, NifResult};
use crate::term::{Term, TermV};
use crate::types::{Decoder, Encoder, Modeled};

verus! {

/// Nanoseconds in a second.
pub open spec fn nanos_per_sec() -> int {
    1_000_000_000
}

/// The first number of nanoseconds that a duration cannot hold: `u64::MAX + 1` seconds.
pub open spec fn duration_limit() -> int {
    (u64::MAX as int + 1) * 1_000_000_000
}

/// A span of time, with nanosecond precision, of up to `u64::MAX` seconds.
#[derive(Clone, Copy)]
pub struct Duration {
    secs: u64,
    nanos: u32,
}

impl Duration {
    #[verifier::type_invariant]
    closed spec fn nanos_below_second(self) -> bool {
        self.nanos < 1_000_000_000
    }

    /// The length of the span in nanoseconds.
    pub closed spec fn total_nanos(self) -> int {
        self.secs * 1_000_000_000 + self.nanos
    }

    /// The duration of `secs` seconds.
    pub fn from_secs(secs: u64) -> (d: Duration)
        ensures
            d.total_nanos() == secs * 1_000_000_000,
    {
        Duration { secs, nanos: 0 }
    }

    /// The duration of `micros` microseconds.
    pub fn from_micros(micros: u64) -> (d: Duration)
        ensures
            d.total_nanos() == micros * 1000,
    {
        let secs = micros / 1_000_000;
        let nanos = ((micros % 1_000_000) * 1000) as u32;
        Duration { secs, nanos }
    }

    /// The zero duration.
    pub fn zero() -> (d: Duration)
        ensures
            d.total_nanos() == 0,
    {
        Duration { secs: 0, nanos: 0 }
    }

    /// The duration of `n` nanoseconds.
    fn from_total_nanos(n: u128) -> (d: Duration)
        requires
            n < duration_limit(),
        ensures
            d.total_nanos() == n,
    {
        Duration { secs: (n / 1_000_000_000) as u64, nanos: (n % 1_000_000_000) as u32 }
    }

    /// The whole seconds of the duration.
    pub fn as_secs(&self) -> (s: u64)
        ensures
            s == self.total_nanos() / 1_000_000_000,
    {
        proof {
            use_type_invariant(self);
        }
        self.secs
    }

    /// The microseconds of the fraction of a second, rounded down.
    pub fn subsec_micros(&self) -> (m: u32)
        ensures
            m == (self.total_nanos() % 1_000_000_000) / 1000,
    {
        proof {
            use_type_invariant(self);
        }
        self.nanos / 1000
    }

    /// The whole microseconds of the duration.
    pub fn as_micros(&self) -> (m: u128)
        ensures
            m == self.total_nanos() / 1000,
    {
        proof {
            use_type_invariant(self);
        }
        self.secs as u128 * 1_000_000 + (self.nanos / 1000) as u128
    }

    /// The sum of two durations, if it can be held.
    pub fn checked_add(self, other: Duration) -> (r: Option<Duration>)
        ensures
            r is Some <==> self.total_nanos() + other.total_nanos() < duration_limit(),
            r matches Some(d) ==> d.total_nanos() == self.total_nanos() + other.total_nanos(),
    {
        proof {
            use_type_invariant(&self);
            use_type_invariant(&other);
        }
        let secs = match self.secs.checked_add(other.secs) {
            Some(s) => s,
            None => return None,
        };
        let nanos = self.nanos + other.nanos;
        if nanos >= 1_000_000_000 {
            match secs.checked_add(1) {
                Some(s) => Some(Duration { secs: s, nanos: nanos - 1_000_000_000 }),
                None => None,
            }
        } else {
            Some(Duration { secs, nanos })
        }
    }

    /// The difference of two durations, if it is not negative.
    pub fn checked_sub(self, other: Duration) -> (r: Option<Duration>)
        ensures
            r is Some <==> self.total_nanos() >= other.total_nanos(),
            r matches Some(d) ==> d.total_nanos() == self.total_nanos() - other.total_nanos(),
    {
        proof {
            use_type_invariant(&self);
            use_type_invariant(&other);
        }
        if self.secs < other.secs || (self.secs == other.secs && self.nanos < other.nanos) {
            return None;
        }
        if self.nanos >= other.nanos {
            Some(Duration { secs: self.secs - other.secs, nanos: self.nanos - other.nanos })
        } else {
            Some(Duration { secs: self.secs - other.secs - 1, nanos: self.nanos + 1_000_000_000 - other.nanos })
        }
    }
}

/// The `{MegaSecs, Secs, MicroSecs}` tuple of a span of `nanos` nanoseconds.
pub open spec fn timestamp_of(nanos: int) -> TermV {
    let secs = nanos / 1_000_000_000;
    TermV::Tuple(
        seq![
            TermV::Int(secs / 1_000_000),
            TermV::Int(secs % 1_000_000),
            TermV::Int((nanos % 1_000_000_000) / 1000),
        ],
    )
}

/// The span, in nanoseconds, that a `{MegaSecs, Secs, MicroSecs}` tuple of unsigned
/// 64-bit integers stands for, if the seconds fit in 64 bits.
pub open spec fn timestamp_decoding(t: TermV) -> Option<int> {
    match <(u64, u64, u64)>::decoding(t) {
        Some((mega, secs, micro)) => {
            let total = mega * 1_000_000 + secs;
            if total > u64::MAX {
                None
            } else if total * 1_000_000_000 + micro * 1000 >= duration_limit() {
                None
            } else {
                Some(total * 1_000_000_000 + micro * 1000)
            }
        },
        None => None,
    }
}

/// The `{MegaSecs, Secs, MicroSecs}` tuple of a duration.
fn timestamp_term(d: Duration) -> (t: Term)
    ensures
        t@ == timestamp_of(d.total_nanos()),
{
    let secs = d.as_secs();
    let mega = secs / 1_000_000;
    let rem_secs = secs % 1_000_000;
    let micro = d.subsec_micros() as u64;
    (mega, rem_secs, micro).encode()
}

/// Reads a `{MegaSecs, Secs, MicroSecs}` tuple as a duration.
fn timestamp_from_term(term: &Term) -> (r: NifResult<Duration>)
    ensures
        match timestamp_decoding(term@) {
            Some(n) => r matches Ok(d) && d.total_nanos() == n,
            None => r matches Err(e) && e is BadArg,
        },
{
    let (mega, secs, micro) = <(u64, u64, u64)>::decode(term)?;
    let total_secs = match mega.checked_mul(1_000_000) {
        Some(m) => match m.checked_add(secs) {
            Some(t) => t,
            None => return Err(Error::BadArg),
        },
        None => return Err(Error::BadArg),
    };
    match Duration::from_secs(total_secs).checked_add(Duration::from_micros(micro)) {
        Some(d) => Ok(d),
        None => Err(Error::BadArg),
    }
}

impl Modeled for Duration {
    type M = int;

    open spec fn model(&self) -> int {
        self.total_nanos()
    }
}

/// A duration becomes its whole microseconds.
impl Encoder for Duration {
    open spec fn encoding(m: int) -> TermV {
        TermV::Int(m / 1000)
    }

    fn encode(&self) -> (t: Term) {
        proof {
            use_type_invariant(self);
        }
        let m = self.as_micros();
        Term::Int(m as i128)
    }
}

/// A duration is read from a number of microseconds that fits in 64 bits.
impl Decoder for Duration {
    open spec fn decoding(t: TermV) -> Option<int> {
        match u64::decoding(t) {
            Some(micros) => Some(micros * 1000),
            None => None,
        }
    }

    fn decode(term: &Term) -> (r: NifResult<Duration>) {
        let micros = u64::decode(term)?;
        Ok(Duration::from_micros(micros))
    }
}

/// An Erlang timestamp: a span since the epoch, as `{MegaSecs, Secs, MicroSecs}`.
pub struct ErlangTimestamp(pub Duration);

impl Modeled for ErlangTimestamp {
    type M = int;

    open spec fn model(&self) -> int {
        self.0.total_nanos()
    }
}

impl Encoder for ErlangTimestamp {
    open spec fn encoding(m: int) -> TermV {
        timestamp_of(m)
    }

    fn encode(&self) -> (t: Term) {
        timestamp_term(self.0)
    }
}

impl Decoder for ErlangTimestamp {
    open spec fn decoding(t: TermV) -> Option<int> {
        timestamp_decoding(t)
    }

    fn decode(term: &Term) -> (r: NifResult<ErlangTimestamp>) {
        let d = timestamp_from_term(term)?;
        Ok(ErlangTimestamp(d))
    }
}

/// The first number of nanoseconds after the epoch that a point in time cannot be at:
/// `i64::MAX + 1` seconds.
pub open spec fn time_upper_limit() -> int {
    (i64::MAX as int + 1) * 1_000_000_000
}

/// The earliest point in time, in nanoseconds after the epoch: `i64::MIN` seconds.
pub open spec fn time_lower_limit() -> int {
    i64::MIN as int * 1_000_000_000
}

/// Whether a point `n` nanoseconds after the epoch can be held.
pub open spec fn time_in_range(n: int) -> bool {
    time_lower_limit() <= n < time_upper_limit()
}

/// A point in time, as seconds and nanoseconds since the Unix epoch.
#[derive(Clone, Copy)]
pub struct SystemTime {
    secs: i64,
    nanos: u32,
}

/// The time by which a point lies before the one it was measured from.
pub struct SystemTimeError(pub Duration);

impl SystemTimeError {
    /// How far before the other point this one lies.
    pub fn duration(&self) -> (d: Duration)
        ensures
            d == self.0,
    {
        self.0
    }
}

impl SystemTime {
    #[verifier::type_invariant]
    closed spec fn nanos_below_second(self) -> bool {
        self.nanos < 1_000_000_000
    }

    /// Nanoseconds since the epoch; negative before it.
    pub closed spec fn since_epoch(self) -> int {
        self.secs * 1_000_000_000 + self.nanos
    }

    fn from_nanos(n: i128) -> (t: SystemTime)
        requires
            time_in_range(n as int),
        ensures
            t.since_epoch() == n,
    {
        let secs = if n >= 0 { n / 1_000_000_000 } else { -((-n + 999_999_999) / 1_000_000_000) };
        let nanos = n - secs * 1_000_000_000;
        SystemTime { secs: secs as i64, nanos: nanos as u32 }
    }

    fn nanos(&self) -> (n: i128)
        ensures
            n == self.since_epoch(),
            time_in_range(n as int),
    {
        proof {
            use_type_invariant(self);
        }
        self.secs as i128 * 1_000_000_000 + self.nanos as i128
    }

    /// The Unix epoch, 1970-01-01 00:00:00 UTC.
    pub fn unix_epoch() -> (t: SystemTime)
        ensures
            t.since_epoch() == 0,
    {
        SystemTime { secs: 0, nanos: 0 }
    }

    /// The point `d` after this one, if it can be held.
    pub fn checked_add(&self, d: Duration) -> (r: Option<SystemTime>)
        ensures
            r is Some <==> time_in_range(self.since_epoch() + d.total_nanos()),
            r matches Some(t) ==> t.since_epoch() == self.since_epoch() + d.total_nanos(),
    {
        let n = self.nanos();
        proof {
            use_type_invariant(&d);
        }
        let dn = d.secs as i128 * 1_000_000_000 + d.nanos as i128;
        if dn >= 0x7fff_ffff_ffff_ffff_i128 * 1_000_000_000 + 1_000_000_000 - n {
            return None;
        }
        Some(SystemTime::from_nanos(n + dn))
    }

    /// The point `d` before this one, if it can be held.
    pub fn checked_sub(&self, d: Duration) -> (r: Option<SystemTime>)
        ensures
            r is Some <==> time_in_range(self.since_epoch() - d.total_nanos()),
            r matches Some(t) ==> t.since_epoch() == self.since_epoch() - d.total_nanos(),
    {
        let n = self.nanos();
        proof {
            use_type_invariant(&d);
        }
        let dn = d.secs as i128 * 1_000_000_000 + d.nanos as i128;
        if dn > n - (-0x8000_0000_0000_0000_i128) * 1_000_000_000 {
            return None;
        }
        Some(SystemTime::from_nanos(n - dn))
    }

    /// The point `d` after this one, which must be one that can be held.
    pub fn add(&self, d: Duration) -> (t: SystemTime)
        requires
            time_in_range(self.since_epoch() + d.total_nanos()),
        ensures
            t.since_epoch() == self.since_epoch() + d.total_nanos(),
    {
        match self.checked_add(d) {
            Some(t) => t,
            None => {
                assert(false);
                *self
            },
        }
    }

    /// The point `d` before this one, which must be one that can be held.
    pub fn sub(&self, d: Duration) -> (t: SystemTime)
        requires
            time_in_range(self.since_epoch() - d.total_nanos()),
        ensures
            t.since_epoch() == self.since_epoch() - d.total_nanos(),
    {
        match self.checked_sub(d) {
            Some(t) => t,
            None => {
                assert(false);
                *self
            },
        }
    }

    /// How long after `earlier` this point lies; an error holding how long before it,
    /// where it lies before.
    pub fn duration_since(&self, earlier: SystemTime) -> (r: Result<Duration, SystemTimeError>)
        ensures
            self.since_epoch() >= earlier.since_epoch() ==> (r matches Ok(d) && d.total_nanos()
                == self.since_epoch() - earlier.since_epoch()),
            self.since_epoch() < earlier.since_epoch() ==> (r matches Err(e) && e.0.total_nanos()
                == earlier.since_epoch() - self.since_epoch()),
    {
        let a = self.nanos();
        let b = earlier.nanos();
        if a >= b {
            Ok(Duration::from_total_nanos((a - b) as u128))
        } else {
            Err(SystemTimeError(Duration::from_total_nanos((b - a) as u128)))
        }
    }
}

impl Modeled for SystemTime {
    type M = int;

    open spec fn model(&self) -> int {
        self.since_epoch()
    }
}

/// A point in time becomes the `{MegaSecs, Secs, MicroSecs}` tuple of its distance from
/// the epoch; points before the epoch become `{0, 0, 0}`.
impl Encoder for SystemTime {
    open spec fn encoding(m: int) -> TermV {
        timestamp_of(if m >= 0 { m } else { 0 })
    }

    fn encode(&self) -> (t: Term) {
        let d = match self.duration_since(SystemTime::unix_epoch()) {
            Ok(d) => d,
            Err(_) => Duration::from_secs(0),
        };
        timestamp_term(d)
    }
}

/// A point in time is read from a `{MegaSecs, Secs, MicroSecs}` tuple of unsigned 64-bit
/// integers, or else from a number of microseconds since the epoch that fits in 64 bits.
/// A tuple whose seconds overflow, or that lies beyond the latest point a `SystemTime`
/// can hold, is refused.
impl Decoder for SystemTime {
    open spec fn decoding(t: TermV) -> Option<int> {
        if <(u64, u64, u64)>::decoding(t) is Some {
            match timestamp_decoding(t) {
                Some(n) => if n < time_upper_limit() { Some(n) } else { None },
                None => None,
            }
        } else {
            match u64::decoding(t) {
                Some(micros) => Some(micros * 1000),
                None => None,
            }
        }
    }

    fn decode(term: &Term) -> (r: NifResult<SystemTime>) {
        if let Ok(_) = <(u64, u64, u64)>::decode(term) {
            let d = timestamp_from_term(term)?;
            return match SystemTime::unix_epoch().checked_add(d) {
                Some(t) => Ok(t),
                None => Err(Error::BadArg),
            };
        }
        let micros = u64::decode(term)?;
        Ok(SystemTime::unix_epoch().add(Duration::from_micros(micros)))
    }
}

// ---------------------------------------------------------------- what a read gives back

/// Reading back the timestamp of a span gives the span, rounded down to whole
/// microseconds.
pub proof fn lemma_timestamp_roundtrip(n: int)
    requires
        0 <= n < duration_limit(),
    ensures
        timestamp_decoding(timestamp_of(n)) == Some(n - n % 1000),
{
    let secs = n / 1_000_000_000;
    let micro = (n % 1_000_000_000) / 1000;
    assert(secs <= u64::MAX);
    assert((secs / 1_000_000) * 1_000_000 + secs % 1_000_000 == secs);
    assert(secs * 1_000_000_000 + micro * 1000 == n - n % 1000);
}

/// Reading back an encoded duration gives it, rounded down to whole microseconds, where
/// its microseconds fit in 64 bits.
pub proof fn lemma_duration_roundtrip(n: int)
    requires
        0 <= n,
        n / 1000 <= u64::MAX,
    ensures
        <Duration as Decoder>::decoding(<Duration as Encoder>::encoding(n)) == Some(n - n % 1000),
{
}

/// Reading back an encoded point in time gives it, rounded down to whole microseconds;
/// points before the epoch come back as the epoch.
pub proof fn lemma_system_time_roundtrip(n: int)
    requires
        n < time_upper_limit(),
    ensures
        <SystemTime as Decoder>::decoding(<SystemTime as Encoder>::encoding(n)) == Some(
            if n >= 0 { n - n % 1000 } else { 0 },
        ),
{
    let m = if n >= 0 { n } else { 0 };
    lemma_timestamp_roundtrip(m);
    assert(<(u64, u64, u64)>::decoding(timestamp_of(m)) is Some);
}

} // verus!
