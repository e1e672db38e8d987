//! Wall-clock time turned into whole simulation ticks, and the cadence of
//! periodic sends.

use vstd::prelude::*;

verus! {

/// Length of one simulation tick, in nanoseconds.
pub const FIXED_TIME_STEP: u64 = 1_000_000;

/// Nanoseconds in one millisecond.
pub const NANOS_PER_MILLI: u64 = 1_000_000;

/// Nanoseconds from `previous` to `now`; a reading that lies before the
/// previous one counts as no time at all.
pub open spec fn elapsed_between(previous: u64, now: u64) -> nat {
    if now >= previous {
        (now - previous) as nat
    } else {
        0
    }
}

/// Computes [`elapsed_between`].
pub fn elapsed(previous: u64, now: u64) -> (ns: u64)
    ensures
        ns == elapsed_between(previous, now),
{
    if now >= previous {
        now - previous
    } else {
        0
    }
}

/// Whether a periodic send that was last made at `last` is due again at `now`:
/// at least `interval_ms` milliseconds have gone by.
pub open spec fn interval_passed(last: u64, now: u64, interval_ms: u64) -> bool {
    elapsed_between(last, now) >= interval_ms * NANOS_PER_MILLI
}

/// Computes [`interval_passed`].
pub fn is_due(last: u64, now: u64, interval_ms: u64) -> (due: bool)
    ensures
        due == interval_passed(last, now, interval_ms),
{
    elapsed(last, now) / NANOS_PER_MILLI >= interval_ms
}

/// Reads the wall clock through `clock_ticks::precise_time_ns`: nanoseconds
/// since an epoch that the outside crate leaves open. Nothing is claimed of
/// the value; in particular two readings need not be ordered. The outside
/// function takes the time from the system's calendar clock and counts it in
/// 64 bits, which suffice until the year 2554.
#[verifier::external_body]
pub(crate) fn precise_time_ns() -> u64 {
    clock_ticks::precise_time_ns()
}

/// Accumulator that hands out elapsed time in steps of [`FIXED_TIME_STEP`].
#[derive(Clone, Copy, Debug, PartialEq, Eq)]
pub struct FixedClock {
    /// The last wall-clock reading that was accounted for.
    pub previous: u64,
    /// Nanoseconds that were accounted for but not yet handed out as ticks.
    pub accumulator: u64,
}

impl FixedClock {
    /// Nanoseconds waiting to be handed out once the reading `now` is accounted for.
    pub open spec fn pending(self, now: u64) -> nat {
        self.accumulator as nat + elapsed_between(self.previous, now)
    }

    /// Number of ticks that the reading `now` releases.
    pub open spec fn ticks_due(self, now: u64) -> nat {
        self.pending(now) / (FIXED_TIME_STEP as nat)
    }

    /// The clock after the reading `now` was accounted for and its ticks handed out.
    pub open spec fn advanced(self, now: u64) -> FixedClock {
        FixedClock {
            previous: now,
            accumulator: (self.pending(now) % (FIXED_TIME_STEP as nat)) as u64,
        }
    }

    /// A clock that starts at the reading `now` with nothing accumulated.
    pub fn new(now: u64) -> (clock: Self)
        ensures
            clock == (FixedClock { previous: now, accumulator: 0 }),
    {
        FixedClock { previous: now, accumulator: 0 }
    }

    /// Accounts for the reading `now` and returns the number of whole ticks
    /// that the simulation has to run; the remainder stays in the accumulator.
    /// There is no cap: a long stall releases all its ticks at once.
    pub fn advance(&mut self, now: u64) -> (ticks: u64)
        ensures
            ticks == old(self).ticks_due(now),
            *final(self) == old(self).advanced(now),
    {
        let gone: u64 = elapsed(self.previous, now);
        let carried: u64 = self.accumulator % FIXED_TIME_STEP + gone % FIXED_TIME_STEP;
        let ticks: u64 = self.accumulator / FIXED_TIME_STEP + gone / FIXED_TIME_STEP + carried
            / FIXED_TIME_STEP;
        self.previous = now;
        self.accumulator = carried % FIXED_TIME_STEP;
        ticks
    }
}

/// Whether each reading of `readings` is at least `start` and none lies
/// before the one that precedes it.
pub open spec fn in_order_from(start: u64, readings: Seq<u64>) -> bool {
    &&& forall|i: int| 0 <= i < readings.len() ==> start <= #[trigger] readings[i]
    &&& forall|i: int, j: int| 0 <= i <= j < readings.len() ==> readings[i] <= readings[j]
}

impl FixedClock {
    /// The clock after `readings` were accounted for one after the other.
    pub open spec fn advanced_through(self, readings: Seq<u64>) -> FixedClock
        decreases readings.len(),
    {
        if readings.len() == 0 {
            self
        } else {
            self.advanced_through(readings.drop_last()).advanced(readings.last())
        }
    }

    /// The ticks that `readings`, accounted for one after the other, release
    /// in all.
    pub open spec fn ticks_through(self, readings: Seq<u64>) -> nat
        decreases readings.len(),
    {
        if readings.len() == 0 {
            0
        } else {
            self.ticks_through(readings.drop_last()) + self.advanced_through(
                readings.drop_last(),
            ).ticks_due(readings.last())
        }
    }

    /// However the time up to a reading is cut into earlier readings, the
    /// clock ends in the same state and has released the same number of
    /// ticks as if the last reading had been the only one.
    pub proof fn lemma_chunking(self, readings: Seq<u64>)
        requires
            readings.len() > 0,
            in_order_from(self.previous, readings),
        ensures
            self.advanced_through(readings) == self.advanced(readings.last()),
            self.ticks_through(readings) == self.ticks_due(readings.last()),
        decreases readings.len(),
    {
        let front = readings.drop_last();
        if front.len() == 0 {
            assert(self.advanced_through(front) == self);
            assert(self.ticks_through(front) == 0);
        } else {
            self.lemma_chunking(front);
            let mid = front.last();
            assert(mid == readings[readings.len() - 2]);
            assert(self.previous <= mid <= readings.last());
        }
    }

    /// Two ways of cutting the same stretch of time give the same clock and
    /// the same number of ticks.
    pub proof fn lemma_chunking_independent(self, a: Seq<u64>, b: Seq<u64>)
        requires
            a.len() > 0,
            b.len() > 0,
            in_order_from(self.previous, a),
            in_order_from(self.previous, b),
            a.last() == b.last(),
        ensures
            self.advanced_through(a) == self.advanced_through(b),
            self.ticks_through(a) == self.ticks_through(b),
    {
        self.lemma_chunking(a);
        self.lemma_chunking(b);
    }

    /// Over a stretch of time that is a whole number of steps, the ticks
    /// released are exactly those steps and the accumulator ends where it
    /// began, however the stretch was cut.
    pub proof fn lemma_whole_steps(self, readings: Seq<u64>, steps: nat)
        requires
            readings.len() > 0,
            in_order_from(self.previous, readings),
            self.accumulator < FIXED_TIME_STEP,
            readings.last() - self.previous == steps * FIXED_TIME_STEP,
        ensures
            self.ticks_through(readings) == steps,
            self.advanced_through(readings).accumulator == self.accumulator,
    {
        self.lemma_chunking(readings);
        assert(readings.last() == readings[readings.len() - 1]);
        let total = self.accumulator as nat + steps * (FIXED_TIME_STEP as nat);
        assert(self.pending(readings.last()) == total);
        vstd::arithmetic::div_mod::lemma_fundamental_div_mod_converse(
            total as int,
            FIXED_TIME_STEP as int,
            steps as int,
            self.accumulator as int,
        );
    }
}

} // verus!
