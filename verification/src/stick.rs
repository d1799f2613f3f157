//! The aim integration: mouse counts that are not consumed yet, and the right-stick position
//! that they are turned into.

use crate::aim::{
    limit_deflection, limited, limited_is_within_limit, limiting_keeps_or_moves_to_the_limit, moved,
    nonzero, on_stick, only_zeros_are_no_movement,
};
use crate::binary32::{lemma_negated, lemma_rank_orders, Binary32};
use crate::config::{num, ONE, ZERO};
use crate::session::AimEffect;
use vstd::prelude::*;

verus! {

/// The state of the aim integration.
#[derive(Debug, Clone, Copy, PartialEq, Eq, Structural)]
pub struct Stick {
    /// Mouse counts that are not consumed yet.
    pub accum_x: Binary32,
    pub accum_y: Binary32,
    /// The right-stick position, -1..1.
    pub rx: Binary32,
    pub ry: Binary32,
}

/// No counts, and the stick at its center.
pub open spec fn at_rest() -> Stick {
    Stick { accum_x: num(ZERO), accum_y: num(ZERO), rx: num(ZERO), ry: num(ZERO) }
}

/// There are counts that are not consumed yet.
pub open spec fn has_counts(s: Stick) -> bool {
    nonzero(s.accum_x) || nonzero(s.accum_y)
}

/// The aim integration after what a message does to it; the sums are those of the counts before
/// and the counts that are added.
pub open spec fn after_effect(
    s: Stick,
    effect: AimEffect,
    sum_x: Binary32,
    sum_y: Binary32,
) -> Stick {
    match effect {
        AimEffect::Keep => s,
        AimEffect::Accumulate(_, _) => Stick { accum_x: sum_x, accum_y: sum_y, ..s },
        AimEffect::Reset(_) => at_rest(),
    }
}

/// The aim integration after a tick that has moved the stick to this position: all counts are
/// consumed, and the position is within the deflection that the setting allows.
pub open spec fn after_integration(
    rx: Binary32,
    ry: Binary32,
    max_deflection: Binary32,
) -> Stick {
    Stick {
        accum_x: num(ZERO),
        accum_y: num(ZERO),
        rx: limited(rx, max_deflection),
        ry: limited(ry, max_deflection),
    }
}

impl Stick {
    /// The aim integration at its start.
    pub fn new() -> (r: Stick)
        ensures
            r == at_rest(),
    {
        let zero = Binary32 { bits: ZERO };
        Stick { accum_x: zero, accum_y: zero, rx: zero, ry: zero }
    }

    /// Perform what a message does to the aim. The sums are those of the counts so far and the
    /// counts that are added, where some are.
    pub fn perform(&mut self, effect: AimEffect, sum_x: Binary32, sum_y: Binary32)
        ensures
            *final(self) == after_effect(*old(self), effect, sum_x, sum_y),
    {
        match effect {
            AimEffect::Keep => {},
            AimEffect::Accumulate(_, _) => {
                self.accum_x = sum_x;
                self.accum_y = sum_y;
            },
            AimEffect::Reset(_) => {
                *self = Stick::new();
            },
        }
    }

    /// Consume the counts: the stick goes to the position that they and the spring-back give, as
    /// far as the setting allows. Tells whether there were counts: the mouse has moved.
    pub fn integrate(&mut self, rx: Binary32, ry: Binary32, max_deflection: Binary32) -> (r: bool)
        requires
            !max_deflection.nan(),
        ensures
            *final(self) == after_integration(rx, ry, max_deflection),
            r == has_counts(*old(self)),
    {
        let moved_this_tick = moved(self.accum_x, self.accum_y);
        let zero = Binary32 { bits: ZERO };
        self.accum_x = zero;
        self.accum_y = zero;
        self.rx = limit_deflection(rx, max_deflection);
        self.ry = limit_deflection(ry, max_deflection);
        moved_this_tick
    }
}

/// Counts are consumed once: after a tick none are left, and without new ones the next tick sees
/// no movement.
pub proof fn counts_are_consumed_once(rx: Binary32, ry: Binary32, max_deflection: Binary32)
    ensures
        !has_counts(after_integration(rx, ry, max_deflection)),
{
}

/// Something that happens to the aim integration.
pub enum AimStep {
    /// A message has this effect, with these sums of counts.
    Effect(AimEffect, Binary32, Binary32),
    /// A tick gives this position, with this setting.
    Integrate(Binary32, Binary32, Binary32),
}

/// The aim integration after one step.
pub open spec fn after_aim_step(s: Stick, step: AimStep) -> Stick {
    match step {
        AimStep::Effect(effect, sum_x, sum_y) => after_effect(s, effect, sum_x, sum_y),
        AimStep::Integrate(rx, ry, max_deflection) => after_integration(rx, ry, max_deflection),
    }
}

/// The aim integration after all the steps.
pub open spec fn run_aim(s: Stick, steps: Seq<AimStep>) -> Stick
    decreases steps.len(),
{
    if steps.len() == 0 {
        s
    } else {
        after_aim_step(run_aim(s, steps.drop_last()), steps.last())
    }
}

/// The step is made of numbers.
pub open spec fn is_number(step: AimStep) -> bool {
    step matches AimStep::Integrate(rx, ry, m) ==> !rx.nan() && !ry.nan() && !m.nan()
}

/// Whatever happens to the aim integration, the stick is never pushed off its range.
pub proof fn position_stays_on_the_stick(s: Stick, steps: Seq<AimStep>)
    requires
        on_stick(s.rx),
        on_stick(s.ry),
        forall|i: int| 0 <= i < steps.len() ==> is_number(#[trigger] steps[i]),
    ensures
        on_stick(run_aim(s, steps).rx),
        on_stick(run_aim(s, steps).ry),
    decreases steps.len(),
{
    if steps.len() > 0 {
        let earlier = steps.drop_last();
        assert forall|i: int| 0 <= i < earlier.len() implies is_number(#[trigger] earlier[i]) by {
            assert(earlier[i] == steps[i]);
        }
        position_stays_on_the_stick(s, earlier);
        assert(is_number(steps[steps.len() - 1]));
        match steps.last() {
            AimStep::Effect(_, _, _) => {
                rest_is_on_the_stick();
            },
            AimStep::Integrate(rx, ry, max_deflection) => {
                limited_is_within_limit(rx, max_deflection);
                limited_is_within_limit(ry, max_deflection);
            },
        }
    }
}

/// The center is a position of the stick.
pub proof fn rest_is_on_the_stick()
    ensures
        on_stick(at_rest().rx),
        on_stick(at_rest().ry),
{
    lemma_rank_orders(num(ZERO), num(ONE));
    lemma_negated(num(ONE));
}

/// Mouse motion of any amount and direction makes the unconsumed counts the sums, on both axes,
/// and does not move the stick.
pub proof fn motion_is_added_to_the_counts(
    s: Stick,
    dx: i32,
    dy: i32,
    sum_x: Binary32,
    sum_y: Binary32,
)
    ensures
        after_effect(s, AimEffect::Accumulate(dx, dy), sum_x, sum_y).accum_x == sum_x,
        after_effect(s, AimEffect::Accumulate(dx, dy), sum_x, sum_y).accum_y == sum_y,
        after_effect(s, AimEffect::Accumulate(dx, dy), sum_x, sum_y).rx == s.rx,
        after_effect(s, AimEffect::Accumulate(dx, dy), sum_x, sum_y).ry == s.ry,
{
}

/// What does not concern the aim leaves all of it as it is, and a reset forgets all of it: what
/// it was before makes no difference.
pub proof fn other_effects_keep_or_forget(
    s: Stick,
    t: Stick,
    active: bool,
    sum_x: Binary32,
    sum_y: Binary32,
)
    ensures
        after_effect(s, AimEffect::Keep, sum_x, sum_y) == s,
        ({
            let r = after_effect(s, AimEffect::Reset(active), sum_x, sum_y);
            &&& r == after_effect(t, AimEffect::Reset(!active), sum_y, sum_x)
            &&& r.accum_x.bits == 0 && r.accum_y.bits == 0 && r.rx.bits == 0 && r.ry.bits == 0
        }),
{
}

/// There is movement exactly where one of the counts is not a zero.
pub proof fn counts_are_movement(s: Stick)
    ensures
        !has_counts(s) <==> (s.accum_x.bits == 0 || s.accum_x.bits == 0x8000_0000) && (
        s.accum_y.bits == 0 || s.accum_y.bits == 0x8000_0000),
{
    only_zeros_are_no_movement(s.accum_x);
    only_zeros_are_no_movement(s.accum_y);
}

/// A tick moves the stick to the given position on each axis as far as that axis may go, and
/// leaves no counts; the axes do not depend on each other.
pub proof fn tick_moves_the_stick(
    rx: Binary32,
    ry: Binary32,
    other: Binary32,
    max_deflection: Binary32,
)
    requires
        num(0).at_most(max_deflection),
        max_deflection.at_most(num(0x3f80_0000)),
    ensures
        ({
            let s = after_integration(rx, ry, max_deflection);
            let least = max_deflection.negated();
            &&& least.at_most(rx) && rx.at_most(max_deflection) ==> s.rx == rx
            &&& least.at_most(ry) && ry.at_most(max_deflection) ==> s.ry == ry
            &&& max_deflection.below(rx) ==> s.rx == max_deflection
            &&& max_deflection.below(ry) ==> s.ry == max_deflection
            &&& rx.below(least) ==> s.rx == least
            &&& ry.below(least) ==> s.ry == least
            &&& s.accum_x.bits == 0 && s.accum_y.bits == 0
            &&& s.rx == after_integration(rx, other, max_deflection).rx
            &&& s.ry == after_integration(other, ry, max_deflection).ry
        }),
{
    limiting_keeps_or_moves_to_the_limit(rx, max_deflection);
    limiting_keeps_or_moves_to_the_limit(ry, max_deflection);
}

} // verus!
