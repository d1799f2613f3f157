use joyclicks::aim::{
    apply_deadzone, apply_low_end_boost, boost_left, boost_now, hold_factor, lift_scale,
    limit_deflection, moved, place, shape, vertical, BoostLeft, LowEnd,
};
use joyclicks::binary32::Binary32;
use joyclicks::session::AimEffect;
use joyclicks::stick::Stick;

fn num(v: f32) -> Binary32 {
    Binary32 { bits: v.to_bits() }
}

const SAMPLES: [f32; 16] = [
    0.0,
    -0.0,
    1.0,
    -1.0,
    0.05,
    -0.05,
    1e-45,
    -1e-45,
    f32::MIN_POSITIVE,
    f32::MAX,
    f32::MIN,
    f32::INFINITY,
    f32::NEG_INFINITY,
    f32::NAN,
    1.0000001,
    0.99999994,
];

#[test]
fn comparisons_agree_with_the_machine() {
    for a in SAMPLES {
        assert_eq!(num(a).is_finite(), a.is_finite());
        assert_eq!(num(a).is_nan(), a.is_nan());
        assert_eq!(num(a).neg().bits, (-a).to_bits());
        for b in SAMPLES {
            assert_eq!(num(a).lt(num(b)), a < b, "{} < {}", a, b);
            assert_eq!(num(a).le(num(b)), a <= b, "{} <= {}", a, b);
        }
    }
}

#[test]
fn clamping_agrees_with_the_machine() {
    for a in SAMPLES {
        for (lo, hi) in [(0.0f32, 1.0f32), (-1.0, 1.0), (-0.0, 0.0), (0.05, 20.0)] {
            let r = num(a).clamp(num(lo), num(hi));
            assert_eq!(r.bits, a.clamp(lo, hi).to_bits(), "{} in {}..{}", a, lo, hi);
        }
    }
}

#[test]
fn movement_is_any_count_left() {
    assert!(!moved(num(0.0), num(-0.0)));
    assert!(moved(num(1.0), num(0.0)));
    assert!(moved(num(0.0), num(-3.0)));
}

#[test]
fn vertical_motion_can_be_inverted() {
    assert_eq!(vertical(num(2.5), true), num(-2.5));
    assert_eq!(vertical(num(2.5), false), num(2.5));
}

#[test]
fn deflection_is_limited() {
    assert_eq!(limit_deflection(num(3.0), num(1.0)), num(1.0));
    assert_eq!(limit_deflection(num(-3.0), num(0.5)), num(-0.5));
    assert_eq!(limit_deflection(num(0.25), num(0.5)), num(0.25));
    assert_eq!(limit_deflection(num(-9.0), num(7.0)), num(-1.0));
    assert_eq!(limit_deflection(num(0.7), num(-2.0)), num(0.0));
}

#[test]
fn the_boost_fades_within_zero_and_one() {
    assert_eq!(hold_factor(num(1.0)), num(1.0));
    assert_eq!(hold_factor(num(0.5)), num(0.5));
    assert_eq!(hold_factor(num(-4.0)), num(0.0));
}

#[test]
fn the_boost_is_whole_then_fades_then_is_gone() {
    assert_eq!(boost_left(0, 30), BoostLeft::Whole);
    assert_eq!(boost_left(1, 30), BoostLeft::Fading);
    assert_eq!(boost_left(29, 30), BoostLeft::Fading);
    assert_eq!(boost_left(30, 30), BoostLeft::Gone);
    assert_eq!(boost_left(u64::MAX, 30), BoostLeft::Gone);
    assert_eq!(boost_left(0, 1), BoostLeft::Whole);
    assert_eq!(boost_left(1, 1), BoostLeft::Gone);
    assert_eq!(boost_now(num(0.2), BoostLeft::Whole, num(0.1)), num(0.2));
    assert_eq!(boost_now(num(0.2), BoostLeft::Fading, num(0.1)), num(0.1));
    assert_eq!(boost_now(num(0.2), BoostLeft::Gone, num(0.1)), num(0.0));
}

#[test]
fn the_phases_of_the_boost_agree_with_the_share() {
    for (since, hold) in [(0u64, 30u64), (1, 30), (15, 30), (29, 30), (30, 30), (90, 30), (7, 1)] {
        let share = 1.0 - since as f32 / hold as f32;
        let factor = hold_factor(num(share));
        match boost_left(since, hold) {
            BoostLeft::Whole => assert_eq!(factor, num(1.0)),
            BoostLeft::Fading => assert!(num(0.0).lt(factor) && factor.lt(num(1.0))),
            BoostLeft::Gone => assert_eq!(factor, num(0.0)),
        }
    }
}

#[test]
fn the_deadzone_comes_before_the_boost() {
    assert_eq!(shape(num(0.1), num(0.2), num(0.05)), LowEnd::Center);
    assert_eq!(shape(num(0.1), num(0.2), num(0.1)), LowEnd::Lift);
    assert_eq!(shape(num(0.0), num(0.2), num(0.00005)), LowEnd::Lift);
    assert_eq!(shape(num(0.0), num(0.2), num(0.0)), LowEnd::Center);
    assert_eq!(shape(num(0.1), num(0.0), num(0.05)), LowEnd::Center);
    assert_eq!(shape(num(0.1), num(0.0), num(0.5)), LowEnd::Keep);
    assert_eq!(shape(num(0.1), num(0.2), num(1.2)), LowEnd::Keep);
}

#[test]
fn a_lifted_magnitude_is_at_least_the_boost() {
    let boost = 0.2f32;
    for mag in [1e-45f32, 0.00005, 0.01, 0.5, 0.999] {
        assert_eq!(shape(num(0.0), num(boost), num(mag)), LowEnd::Lift);
        let lifted = boost + (1.0 - boost) * mag;
        assert!(lifted >= boost && lifted >= mag && lifted < 1.0);
    }
}

#[test]
fn the_deadzone_centers_small_deflections() {
    let (x, y) = (num(0.03), num(0.04));
    assert_eq!(apply_deadzone(x, y, num(0.1), num(0.05)), (num(0.0), num(0.0)));
    assert_eq!(apply_deadzone(x, y, num(0.05), num(0.05)), (x, y));
    assert_eq!(apply_deadzone(x, y, num(0.0), num(0.05)), (x, y));
}

#[test]
fn the_boost_lifts_only_the_low_end() {
    assert_eq!(apply_low_end_boost(num(0.0), num(0.5)), LowEnd::Keep);
    assert_eq!(apply_low_end_boost(num(0.2), num(0.0)), LowEnd::Center);
    assert_eq!(apply_low_end_boost(num(0.2), num(-0.0)), LowEnd::Center);
    assert_eq!(apply_low_end_boost(num(0.2), num(1e-45)), LowEnd::Lift);
    assert_eq!(apply_low_end_boost(num(0.2), num(0.00005)), LowEnd::Lift);
    assert_eq!(apply_low_end_boost(num(0.2), num(1e-4)), LowEnd::Lift);
    assert_eq!(apply_low_end_boost(num(0.2), num(0.999)), LowEnd::Lift);
    assert_eq!(apply_low_end_boost(num(0.2), num(1.0)), LowEnd::Keep);
    assert_eq!(apply_low_end_boost(num(0.2), num(1.4)), LowEnd::Keep);
}

#[test]
fn a_shaped_position_is_kept_centered_or_lifted() {
    let (at, lifted) = ((num(0.1), num(-0.2)), (num(0.3), num(-0.6)));
    assert_eq!(place(at, LowEnd::Keep, lifted), at);
    assert_eq!(place(at, LowEnd::Center, lifted), (num(0.0), num(0.0)));
    assert_eq!(place(at, LowEnd::Lift, lifted), lifted);
}

#[test]
fn a_lift_stops_at_the_ceiling() {
    assert_eq!(lift_scale(num(1.5), num(4.0)), num(1.5));
    assert_eq!(lift_scale(num(1.5), num(1.25)), num(1.25));
    assert_eq!(lift_scale(num(f32::INFINITY), num(f32::INFINITY)), num(f32::INFINITY));
}

#[test]
fn counts_add_up_and_are_consumed_once() {
    let mut s = Stick::new();
    s.perform(AimEffect::Accumulate(3, -4), num(3.0), num(-4.0));
    s.perform(AimEffect::Keep, num(9.0), num(9.0));
    assert_eq!((s.accum_x, s.accum_y), (num(3.0), num(-4.0)));
    assert_eq!((s.rx, s.ry), (num(0.0), num(0.0)));
    assert!(s.integrate(num(0.25), num(-3.0), num(0.5)));
    assert_eq!((s.accum_x, s.accum_y), (num(0.0), num(0.0)));
    assert_eq!((s.rx, s.ry), (num(0.25), num(-0.5)));
    assert!(!s.integrate(num(0.2), num(-0.4), num(0.5)));
    assert_eq!((s.rx, s.ry), (num(0.2), num(-0.4)));
}

#[test]
fn a_toggle_resets_the_aim() {
    for active in [true, false] {
        let mut s =
            Stick { accum_x: num(3.0), accum_y: num(1.0), rx: num(0.5), ry: num(-0.5) };
        s.perform(AimEffect::Reset(active), num(7.0), num(7.0));
        assert_eq!(s, Stick::new());
        assert_eq!((s.rx.bits, s.ry.bits, s.accum_x.bits, s.accum_y.bits), (0, 0, 0, 0));
    }
}
