//! Mouse aim: the decisions between the arithmetic steps that turn mouse motion into a
//! right-stick position.

use crate::binary32::{clamped_within, lemma_negated, lemma_rank_orders, Binary32};
use crate::config::{num, sane, within, Aim, ONE, ZERO};
use vstd::prelude::*;

verus! {

/// Not a zero.
pub open spec fn nonzero(v: Binary32) -> bool {
    v.nan() || v.units() != 0
}

/// Whether there are mouse counts that are not consumed yet: the mouse has moved.
pub fn moved(accum_x: Binary32, accum_y: Binary32) -> (r: bool)
    ensures
        r == (nonzero(accum_x) || nonzero(accum_y)),
        !r <==> (accum_x.bits == 0 || accum_x.bits == 0x8000_0000) && (accum_y.bits == 0
            || accum_y.bits == 0x8000_0000),
{
    proof {
        only_zeros_are_no_movement(accum_x);
        only_zeros_are_no_movement(accum_y);
    }
    let zero = Binary32 { bits: ZERO };
    !(accum_x.le(zero) && zero.le(accum_x)) || !(accum_y.le(zero) && zero.le(accum_y))
}

/// The vertical motion, upside down where that is asked for.
pub fn vertical(accum_y: Binary32, invert_y: bool) -> (r: Binary32)
    ensures
        r == if invert_y {
            accum_y.negated()
        } else {
            accum_y
        },
        !accum_y.nan() && invert_y ==> r.units() == -accum_y.units(),
        invert_y ==> r.negated() == accum_y,
        !invert_y ==> r == accum_y,
{
    proof {
        lemma_negated(accum_y);
    }
    if invert_y {
        accum_y.neg()
    } else {
        accum_y
    }
}

/// The deflection that a setting allows: the setting, moved into `[0, 1]`.
pub open spec fn limit(max_deflection: Binary32) -> Binary32 {
    max_deflection.clamped(num(ZERO), num(ONE))
}

/// A position is within what the setting allows, on either side of the center.
pub open spec fn within_limit(position: Binary32, max_deflection: Binary32) -> bool {
    &&& limit(max_deflection).negated().at_most(position)
    &&& position.at_most(limit(max_deflection))
}

/// A position is a number from -1 to 1.
pub open spec fn on_stick(position: Binary32) -> bool {
    num(ONE).negated().at_most(position) && position.at_most(num(ONE))
}

/// The position, moved into the deflection that the setting allows.
pub open spec fn limited(position: Binary32, max_deflection: Binary32) -> Binary32 {
    position.clamped(limit(max_deflection).negated(), limit(max_deflection))
}

/// A limited position is within what the setting allows, and so never off the stick.
pub proof fn limited_is_within_limit(position: Binary32, max_deflection: Binary32)
    requires
        !position.nan(),
        !max_deflection.nan(),
    ensures
        within_limit(limited(position, max_deflection), max_deflection),
        on_stick(limited(position, max_deflection)),
{
    let maxd = limit(max_deflection);
    lemma_limit_range(max_deflection);
    lemma_negated(num(ONE));
    clamped_within(position, maxd.negated(), maxd);
}

/// The deflection that a setting allows is from 0 to 1, and so a range around the center.
proof fn lemma_limit_range(max_deflection: Binary32)
    requires
        !max_deflection.nan(),
    ensures
        within(limit(max_deflection), ZERO, ONE),
        limit(max_deflection).negated().at_most(limit(max_deflection)),
        limit(max_deflection).negated().units() == -limit(max_deflection).units(),
{
    lemma_rank_orders(num(ZERO), num(ONE));
    clamped_within(max_deflection, num(ZERO), num(ONE));
    lemma_negated(limit(max_deflection));
}

/// The stick position, moved into the deflection that the setting allows.
pub fn limit_deflection(position: Binary32, max_deflection: Binary32) -> (r: Binary32)
    requires
        !max_deflection.nan(),
    ensures
        r == limited(position, max_deflection),
        !position.nan() ==> within_limit(r, max_deflection) && on_stick(r),
        within_limit(position, max_deflection) ==> r == position,
{
    let zero = Binary32 { bits: ZERO };
    let one = Binary32 { bits: ONE };
    proof {
        lemma_rank_orders(zero, one);
        lemma_limit_range(max_deflection);
        if !position.nan() {
            limited_is_within_limit(position, max_deflection);
        }
    }
    let maxd = max_deflection.clamp(zero, one);
    position.clamp(maxd.neg(), maxd)
}

/// With settings in range the stick goes as far as the setting says, and no farther.
pub proof fn sane_limit_is_the_setting(a: Aim)
    requires
        sane(a),
    ensures
        limit(a.max_deflection) == a.max_deflection,
{
}

/// How much of the low-end boost is left.
#[derive(Debug, Clone, Copy, PartialEq, Eq, Structural)]
pub enum BoostLeft {
    /// All of it: the mouse is moving.
    Whole,
    /// A share of it, which shrinks with every tick.
    Fading,
    /// None of it: the hold time has passed since the last movement.
    Gone,
}

/// How much of the boost is left so many ticks after the last movement.
pub open spec fn boost_phase(ticks_since_input: int, boost_hold_ticks: int) -> BoostLeft {
    if ticks_since_input >= boost_hold_ticks {
        BoostLeft::Gone
    } else if ticks_since_input == 0 {
        BoostLeft::Whole
    } else {
        BoostLeft::Fading
    }
}

/// How much of the boost is left: all of it while the mouse moves, none of it once the hold time
/// has passed. In between it fades, so that it neither flickers with sparse input nor drifts and
/// snaps after a stop.
pub fn boost_left(ticks_since_input: u64, boost_hold_ticks: u64) -> (r: BoostLeft)
    ensures
        r == boost_phase(ticks_since_input as int, boost_hold_ticks as int),
{
    if ticks_since_input >= boost_hold_ticks {
        BoostLeft::Gone
    } else if ticks_since_input == 0 {
        BoostLeft::Whole
    } else {
        BoostLeft::Fading
    }
}

/// The share of a fading boost, moved into `[0, 1]`: one minus the part of the hold time that has
/// passed since the last movement.
pub fn hold_factor(share: Binary32) -> (r: Binary32)
    ensures
        r == share.clamped(num(ZERO), num(ONE)),
        within(share, ZERO, ONE) ==> r == share,
        !share.nan() ==> within(r, ZERO, ONE),
{
    let zero = Binary32 { bits: ZERO };
    let one = Binary32 { bits: ONE };
    proof {
        lemma_rank_orders(zero, one);
        if !share.nan() {
            clamped_within(share, zero, one);
        }
    }
    share.clamp(zero, one)
}

/// The boost that applies: the setting while it is whole, nothing once it is gone, and the faded
/// setting in between.
pub open spec fn boost_at(setting: Binary32, left: BoostLeft, faded: Binary32) -> Binary32 {
    match left {
        BoostLeft::Whole => setting,
        BoostLeft::Fading => faded,
        BoostLeft::Gone => num(ZERO),
    }
}

/// The boost that applies now.
pub fn boost_now(setting: Binary32, left: BoostLeft, faded: Binary32) -> (r: Binary32)
    ensures
        r == boost_at(setting, left, faded),
{
    match left {
        BoostLeft::Whole => setting,
        BoostLeft::Fading => faded,
        BoostLeft::Gone => Binary32 { bits: ZERO },
    }
}

/// The magnitude lies inside the deadzone; a deadzone of zero is none.
pub open spec fn in_deadzone(dz: Binary32, mag: Binary32) -> bool {
    !dz.at_most(num(ZERO)) && mag.below(dz)
}

/// The stick position after the deadzone.
pub open spec fn deadzoned(x: Binary32, y: Binary32, dz: Binary32, mag: Binary32) -> (
    Binary32,
    Binary32,
) {
    if in_deadzone(dz, mag) {
        (num(ZERO), num(ZERO))
    } else {
        (x, y)
    }
}

/// Whether the magnitude lies inside the deadzone.
fn is_in_deadzone(dz: Binary32, mag: Binary32) -> (r: bool)
    ensures
        r == in_deadzone(dz, mag),
{
    !dz.le(Binary32 { bits: ZERO }) && mag.lt(dz)
}

/// Center the stick where its magnitude is inside the deadzone.
pub fn apply_deadzone(x: Binary32, y: Binary32, dz: Binary32, mag: Binary32) -> (r: (
    Binary32,
    Binary32,
))
    ensures
        r == deadzoned(x, y, dz, mag),
{
    let zero = Binary32 { bits: ZERO };
    if is_in_deadzone(dz, mag) {
        (zero, zero)
    } else {
        (x, y)
    }
}

/// What becomes of a stick position.
#[derive(Debug, Clone, Copy, PartialEq, Eq, Structural)]
pub enum LowEnd {
    /// Leave the position as it is.
    Keep,
    /// Center the stick.
    Center,
    /// Scale the position so that its magnitude becomes boost + (1 - boost) * magnitude.
    Lift,
}

/// What the low-end boost does to a position of this magnitude.
pub open spec fn low_end(boost: Binary32, mag: Binary32) -> LowEnd {
    if boost.at_most(num(ZERO)) {
        LowEnd::Keep
    } else if mag.at_most(num(ZERO)) {
        LowEnd::Center
    } else if num(ONE).at_most(mag) {
        LowEnd::Keep
    } else {
        LowEnd::Lift
    }
}

/// Anti-deadzone: lift every magnitude between 0 and 1 to the boost at least, so that even the
/// tiniest movement passes the game's own deadzone. A stick at its center has no direction to be
/// lifted in and stays there; the high end, diagonals among it, is left alone.
pub fn apply_low_end_boost(boost: Binary32, mag: Binary32) -> (r: LowEnd)
    ensures
        r == low_end(boost, mag),
{
    if boost.le(Binary32 { bits: ZERO }) {
        LowEnd::Keep
    } else if mag.le(Binary32 { bits: ZERO }) {
        LowEnd::Center
    } else if (Binary32 { bits: ONE }).le(mag) {
        LowEnd::Keep
    } else {
        LowEnd::Lift
    }
}

/// What becomes of a stick position of this magnitude: the deadzone comes first, and what it
/// leaves is boosted.
pub open spec fn shaped(dz: Binary32, boost: Binary32, mag: Binary32) -> LowEnd {
    if in_deadzone(dz, mag) {
        LowEnd::Center
    } else {
        low_end(boost, mag)
    }
}

/// Shape a stick position of this magnitude: deadzone, then (while moving) the low-end boost.
pub fn shape(dz: Binary32, boost: Binary32, mag: Binary32) -> (r: LowEnd)
    ensures
        r == shaped(dz, boost, mag),
{
    if is_in_deadzone(dz, mag) {
        LowEnd::Center
    } else {
        apply_low_end_boost(boost, mag)
    }
}

/// Where a position goes that is kept or centered; one that is lifted is scaled instead.
pub open spec fn placed(position: (Binary32, Binary32), what: LowEnd) -> Option<
    (Binary32, Binary32),
> {
    match what {
        LowEnd::Keep => Some(position),
        LowEnd::Center => Some((num(ZERO), num(ZERO))),
        LowEnd::Lift => None,
    }
}

/// Where a shaped position goes: the position itself, the center, or what it was lifted to.
pub fn place(position: (Binary32, Binary32), what: LowEnd, lifted: (Binary32, Binary32)) -> (r: (
    Binary32,
    Binary32,
))
    ensures
        r == match placed(position, what) {
            Some(p) => p,
            None => lifted,
        },
        what == LowEnd::Keep ==> r == position,
        what == LowEnd::Center ==> r.0.bits == 0 && r.1.bits == 0,
        what == LowEnd::Lift ==> r == lifted,
{
    match what {
        LowEnd::Keep => position,
        LowEnd::Center => (Binary32 { bits: ZERO }, Binary32 { bits: ZERO }),
        LowEnd::Lift => lifted,
    }
}

/// The factor by which a position is lifted, one for both axes so that its direction is kept:
/// the one that the boost asks for, or the largest with which no axis passes its maximum where
/// that is less.
pub fn lift_scale(asked: Binary32, largest: Binary32) -> (r: Binary32)
    ensures
        r == if largest.below(asked) {
            largest
        } else {
            asked
        },
        !asked.nan() && !largest.nan() ==> r.at_most(asked) && r.at_most(largest) && (r == asked
            || r == largest),
{
    if largest.lt(asked) {
        largest
    } else {
        asked
    }
}

/// Shaping a position is applying the deadzone to it, and then the boost to what the deadzone
/// has left: a position at the center where it was inside, itself where it was not.
pub proof fn shaping_is_deadzone_then_boost(
    x: Binary32,
    y: Binary32,
    dz: Binary32,
    boost: Binary32,
    mag: Binary32,
)
    ensures
        placed((x, y), shaped(dz, boost, mag)) == placed(
            deadzoned(x, y, dz, mag),
            low_end(
                boost,
                if in_deadzone(dz, mag) {
                    num(ZERO)
                } else {
                    mag
                },
            ),
        ),
{
}

/// With a boost, no movement outside the deadzone is lost, however small: it is lifted, or so
/// large that it needs no lifting.
pub proof fn movement_is_not_lost(dz: Binary32, boost: Binary32, mag: Binary32)
    requires
        num(ZERO).below(boost),
        num(ZERO).below(mag),
        !in_deadzone(dz, mag),
    ensures
        mag.below(num(ONE)) ==> shaped(dz, boost, mag) == LowEnd::Lift,
        !mag.below(num(ONE)) ==> shaped(dz, boost, mag) == LowEnd::Keep,
{
}

/// Once the boost is gone it lifts nothing: the stick is not held out after a stop.
pub proof fn spent_boost_lifts_nothing(
    setting: Binary32,
    faded: Binary32,
    dz: Binary32,
    mag: Binary32,
)
    ensures
        shaped(dz, boost_at(setting, BoostLeft::Gone, faded), mag) != LowEnd::Lift,
{
}

/// boost + (1 - boost) * magnitude, exactly, in units of 2^-298.
pub open spec fn lifted(boost: Binary32, mag: Binary32) -> int {
    boost.units() * num(ONE).units() + (num(ONE).units() - boost.units()) * mag.units()
}

/// A lifted magnitude is at least the boost and at least what it was, and below 1.
pub proof fn lift_reaches_the_boost(boost: Binary32, mag: Binary32)
    requires
        num(ZERO).at_most(boost),
        boost.below(num(ONE)),
        num(ZERO).at_most(mag),
        mag.below(num(ONE)),
    ensures
        boost.units() * num(ONE).units() <= lifted(boost, mag),
        mag.units() * num(ONE).units() <= lifted(boost, mag),
        lifted(boost, mag) < num(ONE).units() * num(ONE).units(),
{
    let b = boost.units();
    let m = mag.units();
    let one = num(ONE).units();
    assert(0 <= (one - b) * m) by (nonlinear_arith)
        requires
            b < one,
            0 <= m,
    ;
    assert(m * one <= b * one + (one - b) * m) by (nonlinear_arith)
        requires
            0 <= b,
            m < one,
    ;
    assert(b * one + (one - b) * m < one * one) by (nonlinear_arith)
        requires
            b < one,
            m < one,
    ;
}

/// Counts are movement unless they are a zero of either sign.
pub proof fn only_zeros_are_no_movement(v: Binary32)
    ensures
        nonzero(v) <==> v.bits != 0 && v.bits != 0x8000_0000,
{
    lemma_rank_orders(v, num(0));
    lemma_rank_orders(num(0), v);
}

/// A position that the setting allows stays; one that is farther out goes to the limit on its own
/// side, which is the setting, or 1 where the setting is more and 0 where it is negative.
pub proof fn limiting_keeps_or_moves_to_the_limit(position: Binary32, max_deflection: Binary32)
    requires
        !max_deflection.nan(),
    ensures
        position.nan() ==> limited(position, max_deflection) == position,
        ({
            let most = limit(max_deflection);
            let r = limited(position, max_deflection);
            &&& most.negated().at_most(position) && position.at_most(most) ==> r == position
            &&& most.below(position) ==> r == most
            &&& position.below(most.negated()) ==> r == most.negated()
            &&& num(0).at_most(max_deflection) && max_deflection.at_most(num(0x3f80_0000))
                ==> most == max_deflection
            &&& num(0x3f80_0000).below(max_deflection) ==> most == num(0x3f80_0000)
            &&& max_deflection.below(num(0)) ==> most == num(0)
        }),
{
    lemma_limit_range(max_deflection);
    lemma_rank_orders(num(0), num(0x3f80_0000));
}

/// The boost is whole exactly in a tick with movement, and gone exactly from the hold time on;
/// it never comes back without movement.
pub proof fn boost_only_fades(since: int, later: int, hold: int)
    requires
        0 <= since <= later,
        hold >= 1,
    ensures
        boost_phase(since, hold) == BoostLeft::Whole <==> since == 0,
        boost_phase(since, hold) == BoostLeft::Gone <==> since >= hold,
        boost_phase(since, hold) == BoostLeft::Gone ==> boost_phase(later, hold)
            == BoostLeft::Gone,
        boost_phase(later, hold) == BoostLeft::Whole ==> boost_phase(since, hold)
            == BoostLeft::Whole,
{
}

/// The whole boost is the setting, a boost that is gone is zero, and in between it is what the
/// setting has faded to.
pub proof fn boost_goes_from_setting_to_zero(setting: Binary32, faded: Binary32)
    ensures
        boost_at(setting, BoostLeft::Whole, faded) == setting,
        boost_at(setting, BoostLeft::Fading, faded) == faded,
        boost_at(setting, BoostLeft::Gone, faded).bits == 0,
{
}

/// Without a deadzone nothing is inside it; with one, the magnitudes below it are, and no others.
/// Inside, the stick is centered; outside, it stays where it is.
pub proof fn deadzone_centers_what_is_below_it(
    x: Binary32,
    y: Binary32,
    dz: Binary32,
    mag: Binary32,
)
    ensures
        dz.at_most(num(0)) ==> deadzoned(x, y, dz, mag) == (x, y) && !in_deadzone(dz, mag),
        dz.at_most(mag) ==> deadzoned(x, y, dz, mag) == (x, y) && !in_deadzone(dz, mag),
        dz.nan() || mag.nan() ==> deadzoned(x, y, dz, mag) == (x, y) && !in_deadzone(dz, mag),
        num(0).below(dz) && mag.below(dz) ==> deadzoned(x, y, dz, mag) == (num(0), num(0))
            && in_deadzone(dz, mag),
{
}

/// Without a boost every position outside the deadzone is kept as it is.
pub proof fn without_boost_positions_are_kept(dz: Binary32, boost: Binary32, mag: Binary32)
    requires
        boost.at_most(num(0)),
    ensures
        low_end(boost, mag) == LowEnd::Keep,
        dz.at_most(num(0)) || dz.at_most(mag) ==> shaped(dz, boost, mag) == LowEnd::Keep,
{
}

/// A position is centered inside the deadzone, and else only where it is at the center already;
/// it is lifted exactly where there is a boost and a movement outside the deadzone that is
/// smaller than 1.
pub proof fn shaping_centers_only_what_is_small(dz: Binary32, boost: Binary32, mag: Binary32)
    ensures
        ({
            let inside = !dz.at_most(num(0)) && mag.below(dz);
            let center = !boost.at_most(num(0)) && mag.at_most(num(0));
            let lift = !boost.at_most(num(0)) && !mag.at_most(num(0)) && !num(0x3f80_0000).at_most(
                mag,
            );
            &&& shaped(dz, boost, mag) == LowEnd::Center <==> inside || center
            &&& shaped(dz, boost, mag) == LowEnd::Lift <==> !inside && lift
            &&& low_end(boost, mag) == LowEnd::Center <==> center
            &&& low_end(boost, mag) == LowEnd::Lift <==> lift
        }),
{
    lemma_rank_orders(num(0), num(0x3f80_0000));
}

/// A kept position stays where it is, a centered one is at the center, and a lifted one is
/// neither.
pub proof fn placing_keeps_or_centers(position: (Binary32, Binary32))
    ensures
        placed(position, LowEnd::Keep) == Some(position),
        placed(position, LowEnd::Center) == Some((num(0), num(0))),
        placed(position, LowEnd::Lift) is None,
{
}

} // verus!
