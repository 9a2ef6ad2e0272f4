//! Game time tracking: delta time, elapsed time and frame count, updated once
//! per frame. The clock is read through `std::time::Instant`; everything the
//! engine decides from a clock reading is in [`Time::tick_by`].

use std::time::{Duration, Instant};
use vstd::prelude::*;

verus! {

#[verifier::external_type_specification]
#[verifier::external_body]
pub struct ExInstant(Instant);

/// `std::time::Instant::now`: a reading of the monotonic clock. Nothing is
/// promised of the value.
#[verifier::external_body]
fn instant_now() -> (now: Instant) {
    Instant::now()
}

/// `std::time::Instant::duration_since`: the time from `earlier` to `later`
/// (zero when `earlier` is later). It depends on clock readings, so nothing
/// is promised of it.
#[verifier::external_body]
fn instant_duration_since(later: &Instant, earlier: &Instant) -> (d: Duration) {
    later.duration_since(*earlier)
}

/// `std::time::Duration::as_nanos`: the whole nanoseconds of a duration.
/// `Duration` is opaque here, so nothing is promised of the number.
#[verifier::external_body]
fn duration_as_nanos(d: &Duration) -> (n: u128) {
    d.as_nanos()
}

/// Largest delta a frame may report, in nanoseconds (100 ms): keeps physics
/// stable after lag spikes.
pub const MAX_DELTA_NANOS: u64 = 100_000_000;

/// The abstract clock state.
pub ghost struct ClockState {
    /// Duration of the most recent frame, clamped, in nanoseconds.
    pub delta: nat,
    /// Total unpaused time, in nanoseconds.
    pub elapsed: nat,
    /// Frames since startup.
    pub frame_count: nat,
    pub paused: bool,
}

/// The clock state after a frame whose raw (unclamped) duration was `raw`.
pub open spec fn ticked(s: ClockState, raw: nat) -> ClockState {
    let delta = if raw < MAX_DELTA_NANOS { raw } else { MAX_DELTA_NANOS as nat };
    ClockState {
        delta,
        elapsed: if s.paused { s.elapsed } else { s.elapsed + delta },
        frame_count: s.frame_count + 1,
        paused: s.paused,
    }
}

/// Per-frame time information. Durations are kept in nanoseconds.
pub struct Time {
    start: Instant,
    last_frame: Instant,
    delta: u64,
    elapsed: u64,
    frame_count: u64,
    paused: bool,
}

impl View for Time {
    type V = ClockState;

    closed spec fn view(&self) -> ClockState {
        ClockState {
            delta: self.delta as nat,
            elapsed: self.elapsed as nat,
            frame_count: self.frame_count as nat,
            paused: self.paused,
        }
    }
}

impl Time {
    /// Create a fresh clock: nothing elapsed, no frame yet, not paused.
    pub fn new() -> (t: Self)
        ensures
            t@ == (ClockState { delta: 0, elapsed: 0, frame_count: 0, paused: false }),
    {
        let now = instant_now();
        Time { start: now, last_frame: now, delta: 0, elapsed: 0, frame_count: 0, paused: false }
    }

    /// Advance the clock by a frame whose raw duration is `raw_nanos`: the
    /// delta is clamped to [`MAX_DELTA_NANOS`], elapsed time grows by it unless
    /// paused, and the frame counter grows by one.
    pub fn tick_by(&mut self, raw_nanos: u128)
        requires
            old(self)@.frame_count < u64::MAX,
            old(self)@.elapsed + MAX_DELTA_NANOS <= u64::MAX,
        ensures
            final(self)@ == ticked(old(self)@, raw_nanos as nat),
    {
        let d: u64 = if raw_nanos < MAX_DELTA_NANOS as u128 { raw_nanos as u64 } else { MAX_DELTA_NANOS };
        self.delta = d;
        if !self.paused {
            self.elapsed = self.elapsed + d;
        }
        self.frame_count = self.frame_count + 1;
    }

    /// Advance the clock by reading the wall clock. Call once per frame.
    pub fn tick(&mut self)
        requires
            old(self)@.frame_count < u64::MAX,
            old(self)@.elapsed + MAX_DELTA_NANOS <= u64::MAX,
        ensures
            exists|raw: nat| final(self)@ == #[trigger] ticked(old(self)@, raw),
    {
        let now = instant_now();
        let raw = instant_delta_nanos(&now, &self.last_frame);
        self.last_frame = now;
        self.tick_by(raw);
    }

    /// Delta time in nanoseconds; zero while paused.
    pub fn delta(&self) -> (d: u64)
        ensures
            d == (if self@.paused { 0 } else { self@.delta }),
    {
        if self.paused { 0 } else { self.delta }
    }

    /// Total unpaused time in nanoseconds.
    pub fn elapsed(&self) -> (e: u64)
        ensures
            e == self@.elapsed,
    {
        self.elapsed
    }

    /// Frames since startup.
    pub fn frame_count(&self) -> (n: u64)
        ensures
            n == self@.frame_count,
    {
        self.frame_count
    }

    /// Pause or resume the clock. Resuming restarts the frame timer so the
    /// first frame afterwards does not report the paused span.
    pub fn set_paused(&mut self, paused: bool)
        ensures
            final(self)@ == (ClockState { paused, ..old(self)@ }),
    {
        self.paused = paused;
        if !paused {
            self.last_frame = instant_now();
        }
    }

    /// `true` while the clock is paused.
    pub fn is_paused(&self) -> (b: bool)
        ensures
            b == self@.paused,
    {
        self.paused
    }
}

/// The raw nanoseconds from `earlier` to `later`.
fn instant_delta_nanos(later: &Instant, earlier: &Instant) -> u128 {
    let d = instant_duration_since(later, earlier);
    duration_as_nanos(&d)
}

/// A frame is reported as it was, up to the cap: a frame shorter than
/// [`MAX_DELTA_NANOS`] gives exactly its own duration as the delta, a longer
/// one gives the cap. Unpaused, elapsed time grows by that delta; paused, it
/// stays. Every frame counts once, and pausing is left as it was.
pub proof fn lemma_tick_reports_the_frame(s: ClockState, raw: nat)
    ensures
        raw < MAX_DELTA_NANOS ==> ticked(s, raw).delta == raw,
        raw >= MAX_DELTA_NANOS ==> ticked(s, raw).delta == MAX_DELTA_NANOS,
        !s.paused ==> ticked(s, raw).elapsed == s.elapsed + ticked(s, raw).delta,
        s.paused ==> ticked(s, raw).elapsed == s.elapsed,
        ticked(s, raw).frame_count == s.frame_count + 1,
        ticked(s, raw).paused == s.paused,
{
}

/// A paused clock keeps its elapsed time however long the frame was, and
/// still counts the frame; an unpaused clock never advances by more than
/// [`MAX_DELTA_NANOS`] per frame.
pub proof fn lemma_tick_bounds(s: ClockState, raw: nat)
    ensures
        s.paused ==> ticked(s, raw).elapsed == s.elapsed,
        ticked(s, raw).elapsed <= s.elapsed + MAX_DELTA_NANOS,
        ticked(s, raw).delta <= MAX_DELTA_NANOS,
        ticked(s, raw).frame_count == s.frame_count + 1,
{
}

} // verus!
