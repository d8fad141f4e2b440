//! The tachometer: edges counted over a sampling window, and the speed that
//! the count stands for.

use crate::error::TimingError;
use crate::hardware::TachoHardwareConfig;
use std::time::{Duration, Instant};
use vstd::prelude::*;

verus! {

/// The nanoseconds of one second.
pub const NANOS_PER_SECOND: u128 = 1_000_000_000;

/// `std::time::Instant`, a reading of the monotonic clock. Nothing inside it
/// is visible to the proofs.
#[verifier::external_type_specification]
#[verifier::external_body]
pub struct ExInstant(Instant);

/// `std::time::Instant::now` reads the monotonic clock. Nothing is claimed of
/// the reading.
pub assume_specification[ Instant::now ]() -> (now: Instant)
;

/// `std::time::Instant::elapsed` gives the time that has passed since the
/// instant was read. Nothing is claimed of the amount.
pub assume_specification[ Instant::elapsed ](start: &Instant) -> (elapsed: Duration)
;

/// `std::time::Duration::as_nanos` gives a duration in whole nanoseconds.
/// Nothing is claimed of the number.
pub assume_specification[ Duration::as_nanos ](duration: &Duration) -> (nanos: u128)
;

/// The revolutions per minute that `edges` pulses in `seconds` seconds stand
/// for at `pulses` pulses per revolution, rounded down.
pub open spec fn revolutions_per_minute(edges: nat, seconds: nat, pulses: nat) -> nat {
    (edges * 60) / (seconds * pulses)
}

/// The reading of a window: no reading for a window of no whole second, nor
/// where the quotient does not exist or does not fit.
pub open spec fn rpm_reading(edges: nat, seconds: nat, pulses: nat) -> Result<u64, TimingError> {
    if seconds == 0 {
        Err(TimingError::ZeroWindow)
    } else if pulses == 0 || revolutions_per_minute(edges, seconds, pulses) > u64::MAX {
        Err(TimingError::Unrepresentable)
    } else {
        Ok(revolutions_per_minute(edges, seconds, pulses) as u64)
    }
}

/// The running sampling window: the edges counted in it and the time at which
/// it began, in nanoseconds on the counter's own clock.
pub ghost struct Window {
    pub edges: nat,
    pub start: nat,
}

impl Window {
    /// The window after one more edge.
    pub open spec fn counted(self) -> Window {
        Window { edges: self.edges + 1, start: self.start }
    }

    /// The empty window that begins at `now`.
    pub open spec fn restarted(now: nat) -> Window {
        Window { edges: 0, start: now }
    }

    /// The whole seconds from the start of the window to `now`; none if `now`
    /// is not after the start.
    pub open spec fn elapsed_seconds(self, now: nat) -> nat {
        if now >= self.start {
            (now - self.start) as nat / (NANOS_PER_SECOND as nat)
        } else {
            0
        }
    }

    /// What a reading of the window taken at `now` gives, at `pulses` pulses per
    /// revolution.
    pub open spec fn reading(self, now: nat, pulses: nat) -> Result<u64, TimingError> {
        rpm_reading(self.edges, self.elapsed_seconds(now), pulses)
    }
}

/// The speed reading for `edges` pulses counted over `seconds` whole seconds.
pub fn rpm_from_window(edges: u64, seconds: u128, pulses_per_revolution: u8) -> (r: Result<
    u64,
    TimingError,
>)
    ensures
        r == rpm_reading(edges as nat, seconds as nat, pulses_per_revolution as nat),
{
    if seconds == 0 {
        return Err(TimingError::ZeroWindow);
    }
    if pulses_per_revolution == 0 {
        return Err(TimingError::Unrepresentable);
    }
    let minute_edges: u128 = edges as u128 * 60;
    if seconds > minute_edges {
        let ghost pulses = pulses_per_revolution as int;
        proof {
            vstd::arithmetic::mul::lemma_mul_inequality(1, pulses, seconds as int);
            vstd::arithmetic::mul::lemma_mul_is_commutative(seconds as int, pulses);
            vstd::arithmetic::div_mod::lemma_basic_div(minute_edges as int, seconds * pulses);
        }
        return Ok(0);
    }
    let pulses: u128 = pulses_per_revolution as u128;
    assert(0 < seconds * pulses <= 0x1_0000_0000_0000_0000 * 60 * 255) by (nonlinear_arith)
        requires
            0 < seconds <= 0x1_0000_0000_0000_0000 * 60,
            0 < pulses <= 255,
    ;
    let rpm: u128 = minute_edges / (seconds * pulses);
    if rpm > u64::MAX as u128 {
        Err(TimingError::Unrepresentable)
    } else {
        Ok(rpm as u64)
    }
}

/// What one bounded wait for an edge of the tachometer signal brought.
#[derive(Clone, Copy, Debug, PartialEq, Eq, Structural)]
pub enum PollOutcome {
    /// An edge was seen.
    Edge,
    /// The wait ended with no edge.
    Timeout,
}

/// A tachometer counter: it holds one sampling window at a time.
#[derive(Debug)]
pub struct Tacho {
    counter: u64,
    clock: Instant,
    last_query: u128,
    config: TachoHardwareConfig,
}

impl View for Tacho {
    type V = Window;

    closed spec fn view(&self) -> Window {
        Window { edges: self.counter as nat, start: self.last_query as nat }
    }
}

impl Tacho {
    /// The hardware that this counter reads.
    pub closed spec fn config(&self) -> TachoHardwareConfig {
        self.config
    }

    /// A counter with no edge counted, whose window and whose clock begin now.
    pub fn new(config: TachoHardwareConfig) -> (tacho: Self)
        ensures
            tacho@ == Window::restarted(0),
            tacho.config() == config,
    {
        Self { counter: 0, clock: Instant::now(), last_query: 0, config }
    }

    /// Counts one edge.
    pub fn handle_interrupt(&mut self)
        requires
            old(self)@.edges < u64::MAX,
        ensures
            final(self)@ == old(self)@.counted(),
            final(self).config() == old(self).config(),
    {
        self.counter += 1;
    }

    /// Takes in what a wait for an edge brought: an edge is counted, a wait
    /// that ended without one changes nothing.
    pub fn handle_poll(&mut self, outcome: PollOutcome)
        requires
            outcome == PollOutcome::Edge ==> old(self)@.edges < u64::MAX,
        ensures
            final(self)@ == if outcome == PollOutcome::Edge {
                old(self)@.counted()
            } else {
                old(self)@
            },
            final(self).config() == old(self).config(),
    {
        match outcome {
            PollOutcome::Edge => self.handle_interrupt(),
            PollOutcome::Timeout => {},
        }
    }

    /// The edges counted in the running window.
    pub fn edge_count(&self) -> (n: u64)
        ensures
            n == self@.edges,
    {
        self.counter
    }

    /// Reads the clock, gives the speed that the running window stands for
    /// and begins a new window at that reading, whatever the result.
    pub fn get_rpm(&mut self) -> (r: Result<u64, TimingError>)
        ensures
            final(self)@.edges == 0,
            final(self).config() == old(self).config(),
            r == old(self)@.reading(
                final(self)@.start,
                old(self).config().pulse_per_revolution as nat,
            ),
    {
        let since_start: Duration = self.clock.elapsed();
        let now: u128 = since_start.as_nanos();
        self.get_rpm_at(now)
    }

    /// Gives the speed that the running window stands for when it ends at
    /// `now`, in nanoseconds on this counter's clock, and begins a new window
    /// there, whatever the result.
    pub fn get_rpm_at(&mut self, now: u128) -> (r: Result<u64, TimingError>)
        ensures
            final(self)@ == Window::restarted(now as nat),
            final(self).config() == old(self).config(),
            r == old(self)@.reading(now as nat, old(self).config().pulse_per_revolution as nat),
    {
        let seconds: u128 = if now >= self.last_query {
            (now - self.last_query) / NANOS_PER_SECOND
        } else {
            0
        };
        let rpm = rpm_from_window(self.counter, seconds, self.config.pulse_per_revolution);
        self.counter = 0;
        self.last_query = now;
        rpm
    }
}

/// A reading begins a new window, so the next reading does not go on
/// counting: the window it finds holds no edge and begins where the first
/// reading was taken. Taken before a whole second has passed, the next
/// reading is refused for its empty window; taken later, it is zero.
pub proof fn lemma_reading_restarts(now: nat, next: nat, pulses: nat)
    ensures
        Window::restarted(now).edges == 0,
        Window::restarted(now).start == now,
        next < now + NANOS_PER_SECOND ==> Window::restarted(now).reading(next, pulses) == Err::<
            u64,
            TimingError,
        >(TimingError::ZeroWindow),
        next >= now + NANOS_PER_SECOND && pulses > 0 ==> Window::restarted(now).reading(
            next,
            pulses,
        ) == Ok::<u64, TimingError>(0),
{
    let seconds = Window::restarted(now).elapsed_seconds(next);
    if next >= now + NANOS_PER_SECOND && pulses > 0 {
        assert(seconds >= 1);
        assert(seconds * pulses > 0) by (nonlinear_arith)
            requires
                seconds >= 1,
                pulses > 0,
        ;
        assert(0nat * 60 == 0);
        vstd::arithmetic::div_mod::lemma_basic_div(0, (seconds * pulses) as int);
    }
}

} // verus!
