//! Tempo, time-division modes and nanosecond-precision durations.
//!
//! A MIDI track's own clock counts ticks; the time-division mode of the
//! file together with the current tempo determines how long one tick
//! lasts. Durations are held as whole nanosecond counts so that every
//! conversion is exact integer arithmetic.

use vstd::prelude::*;

verus! {

/// Microseconds in one minute, used to convert between beats per minute
/// and microseconds per quarter note.
pub const MICROSECONDS_PER_MINUTE: u32 = 60000000;

/// A span of time, measured in whole nanoseconds.
#[derive(Clone, Copy, Debug, PartialEq, Eq, Structural)]
pub struct TimeSpan {
    pub nanos: u128,
}

impl TimeSpan {
    pub fn from_nanos(nanos: u128) -> (r: TimeSpan)
        ensures
            r.nanos == nanos,
    {
        TimeSpan { nanos }
    }

    pub fn zero() -> (r: TimeSpan)
        ensures
            r.nanos == 0,
    {
        TimeSpan { nanos: 0 }
    }

    pub fn as_nanos(&self) -> (r: u128)
        ensures
            r == self.nanos,
    {
        self.nanos
    }
}

/// Tempo of playback: how many microseconds one quarter note lasts.
#[derive(Clone, Copy, Debug, PartialEq, Eq, Structural)]
pub struct Tempo {
    pub mpqn: u32,
}

impl Tempo {
    pub fn from_mpqn(mpqn: u32) -> (r: Self)
        ensures
            r.mpqn == mpqn,
    {
        Self { mpqn }
    }

    pub fn from_bpm(bpm: u32) -> (r: Self)
        requires
            bpm > 0,
        ensures
            r.mpqn == MICROSECONDS_PER_MINUTE as int / bpm as int,
    {
        let mpqn = MICROSECONDS_PER_MINUTE / bpm;
        Self { mpqn }
    }

    pub fn as_bpm(&self) -> (r: u32)
        requires
            self.mpqn > 0,
        ensures
            r == MICROSECONDS_PER_MINUTE as int / self.mpqn as int,
    {
        MICROSECONDS_PER_MINUTE / self.mpqn
    }

    pub fn as_mpqn(&self) -> (r: u32)
        ensures
            r == self.mpqn,
    {
        self.mpqn
    }
}

impl Default for Tempo {
    /// The default tempo of 120 beats per minute (500000 microseconds
    /// per quarter note), in force until a SetTempo event is observed.
    fn default() -> (r: Self)
        ensures
            r.mpqn == 500000,
    {
        Self::from_bpm(120)
    }
}

/// SMPTE frames-per-second rates usable as a time-division mode.
#[derive(Clone, Copy, Debug, PartialEq, Eq, Structural)]
pub enum SMPTE {
    _24,
    _25,
    _29_97,
    _30,
}

/// How tick counts in a track relate to wall-clock time: either a number
/// of ticks per quarter note (scaled by the current tempo), or an SMPTE
/// frame rate with a fixed number of subframe ticks per frame.
#[derive(Clone, Copy, Debug, PartialEq, Eq, Structural)]
pub enum TimeDivision {
    TicksPerBit(u16),
    FramesPerSecond(SMPTE, u16),
}

/// Ticks per second in SMPTE mode: the frame rate times the subframe
/// tick count, rounded down to a whole number for the 29.97 rate.
pub open spec fn spec_smpte_ticks_per_sec(smpte: SMPTE, ticks: u16) -> int {
    match smpte {
        SMPTE::_24 => 24 * ticks,
        SMPTE::_25 => 25 * ticks,
        SMPTE::_29_97 => (2997 * ticks) / 100,
        SMPTE::_30 => 30 * ticks,
    }
}

/// Nanoseconds that one tick lasts under the given time division and
/// tempo, rounded down to a whole nanosecond.
pub open spec fn spec_tick_nanos(td: TimeDivision, tempo: Tempo) -> int {
    match td {
        TimeDivision::TicksPerBit(t) => (tempo.mpqn * 1000) / (t as int),
        TimeDivision::FramesPerSecond(smpte, ticks) => 1000000000int / spec_smpte_ticks_per_sec(
            smpte,
            ticks,
        ),
    }
}

impl TimeDivision {
    /// A time division with a zero tick rate would make a tick's duration
    /// a division by zero; such degenerate headers are excluded from the
    /// timing computations.
    pub open spec fn has_positive_rate(&self) -> bool {
        match *self {
            TimeDivision::TicksPerBit(t) => t > 0,
            TimeDivision::FramesPerSecond(_, ticks) => ticks > 0,
        }
    }

    pub fn tick_duration(&self, tempo: Tempo) -> (r: TimeSpan)
        requires
            self.has_positive_rate(),
        ensures
            r.nanos == spec_tick_nanos(*self, tempo),
            r.nanos <= 0x400_0000_0000,
    {
        match self {
            TimeDivision::TicksPerBit(t) => TimeSpan {
                nanos: (tempo.as_mpqn() as u128) * 1000 / (*t as u128),
            },
            TimeDivision::FramesPerSecond(smpte, ticks) => {
                let per_sec: u64 = match smpte {
                    SMPTE::_24 => 24 * (*ticks as u64),
                    SMPTE::_25 => 25 * (*ticks as u64),
                    SMPTE::_29_97 => 2997 * (*ticks as u64) / 100,
                    SMPTE::_30 => 30 * (*ticks as u64),
                };
                TimeSpan { nanos: 1000000000u128 / (per_sec as u128) }
            },
        }
    }
}

} // verus!
