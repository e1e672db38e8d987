//! The fixed-step loop as contracts see it: a craft's state after a run of
//! loop iterations depends on the inputs tick by tick and on the time that
//! went by in all, not on how the iterations cut that time.
//!
//! The integrator is whatever the caller computes from a pilot's state; here
//! it is an arbitrary function.

use vstd::prelude::*;
use crate::clock::{in_order_from, FixedClock};
use crate::common::{Motion, Pilot};
use crate::wire::InputMessage;

verus! {

impl Pilot {
    /// This pilot after one tick under the integrator `f`.
    pub open spec fn ticked(self, f: spec_fn(Pilot) -> Motion) -> Pilot {
        self.stepped(f(self))
    }

    /// This pilot after one tick for each of `inputs`: before a tick, the
    /// flags become those of the tick's input.
    pub open spec fn ticked_through(
        self,
        f: spec_fn(Pilot) -> Motion,
        inputs: Seq<InputMessage>,
    ) -> Pilot
        decreases inputs.len(),
    {
        if inputs.len() == 0 {
            self
        } else {
            self.ticked_through(f, inputs.drop_last()).with_flags(
                inputs.last().turn_left,
                inputs.last().turn_right,
                inputs.last().throttle,
            ).ticked(f)
        }
    }

    /// Ticks for one list of inputs and then for another are the ticks for
    /// the two lists joined.
    pub proof fn lemma_ticks_join(
        self,
        f: spec_fn(Pilot) -> Motion,
        a: Seq<InputMessage>,
        b: Seq<InputMessage>,
    )
        ensures
            self.ticked_through(f, a).ticked_through(f, b) == self.ticked_through(f, a + b),
        decreases b.len(),
    {
        if b.len() == 0 {
            assert(a + b =~= a);
        } else {
            self.lemma_ticks_join(f, a, b.drop_last());
            assert((a + b).drop_last() =~= a + b.drop_last());
            assert((a + b).last() == b.last());
        }
    }
}

/// The pilot after the loop ran once for each of `readings`: each run
/// releases the ticks that its reading makes due, and tick number `k`,
/// counted over all runs, flies under `inputs[k]`.
pub open spec fn flown(
    clock: FixedClock,
    pilot: Pilot,
    f: spec_fn(Pilot) -> Motion,
    inputs: Seq<InputMessage>,
    readings: Seq<u64>,
) -> Pilot
    decreases readings.len(),
{
    if readings.len() == 0 {
        pilot
    } else {
        let front = readings.drop_last();
        let done = clock.ticks_through(front) as int;
        let due = clock.advanced_through(front).ticks_due(readings.last()) as int;
        flown(clock, pilot, f, inputs, front).ticked_through(f, inputs.subrange(done, done + due))
    }
}

/// Determinism of the fixed-step loop: after runs at readings that do not go
/// back, the pilot is where the ticks of the whole stretch, taken in one go,
/// would have put it. The runs in between leave no trace.
pub proof fn lemma_flown(
    clock: FixedClock,
    pilot: Pilot,
    f: spec_fn(Pilot) -> Motion,
    inputs: Seq<InputMessage>,
    readings: Seq<u64>,
)
    requires
        readings.len() > 0,
        in_order_from(clock.previous, readings),
        inputs.len() >= clock.ticks_due(readings.last()),
    ensures
        flown(clock, pilot, f, inputs, readings) == pilot.ticked_through(
            f,
            inputs.take(clock.ticks_due(readings.last()) as int),
        ),
    decreases readings.len(),
{
    let front = readings.drop_last();
    let done = clock.ticks_through(front) as int;
    let due = clock.advanced_through(front).ticks_due(readings.last()) as int;
    clock.lemma_chunking(readings);
    assert(done + due == clock.ticks_due(readings.last()));
    if front.len() == 0 {
        assert(done == 0);
        assert(flown(clock, pilot, f, inputs, front) == pilot);
        assert(inputs.subrange(0, due) =~= inputs.take(due));
    } else {
        assert(in_order_from(clock.previous, front)) by {
            assert forall|i: int| 0 <= i < front.len() implies clock.previous
                <= #[trigger] front[i] by {
                assert(front[i] == readings[i]);
            }
            assert forall|i: int, j: int| 0 <= i <= j < front.len() implies front[i]
                <= front[j] by {
                assert(front[i] == readings[i] && front[j] == readings[j]);
            }
        }
        clock.lemma_chunking(front);
        assert(front.last() == readings[readings.len() - 2]);
        assert(clock.ticks_due(front.last()) <= clock.ticks_due(readings.last()));
        lemma_flown(clock, pilot, f, inputs, front);
        assert(flown(clock, pilot, f, inputs, front) == pilot.ticked_through(
            f,
            inputs.take(done),
        ));
        pilot.lemma_ticks_join(f, inputs.take(done), inputs.subrange(done, done + due));
        assert(inputs.take(done) + inputs.subrange(done, done + due) =~= inputs.take(
            done + due,
        ));
    }
}

/// Two ways of cutting the same stretch of time put the pilot in the same
/// state.
pub proof fn lemma_chunking_leaves_no_trace(
    clock: FixedClock,
    pilot: Pilot,
    f: spec_fn(Pilot) -> Motion,
    inputs: Seq<InputMessage>,
    a: Seq<u64>,
    b: Seq<u64>,
)
    requires
        a.len() > 0,
        b.len() > 0,
        in_order_from(clock.previous, a),
        in_order_from(clock.previous, b),
        a.last() == b.last(),
        inputs.len() >= clock.ticks_due(a.last()),
    ensures
        flown(clock, pilot, f, inputs, a) == flown(clock, pilot, f, inputs, b),
{
    lemma_flown(clock, pilot, f, inputs, a);
    lemma_flown(clock, pilot, f, inputs, b);
}

} // verus!
