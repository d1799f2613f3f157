use joyclicks::aim::{boost_left, BoostLeft};
use joyclicks::codes::{
    ABS_HAT0X, ABS_HAT0Y, ABS_RX, ABS_RY, ABS_RZ, ABS_X, ABS_Y, ABS_Z, BTN_EAST, BTN_EXTRA,
    BTN_LEFT, BTN_MIDDLE, BTN_RIGHT, BTN_SIDE, BTN_SOUTH, BTN_THUMBR, BTN_WEST, DECLARED_KEYS,
};
use joyclicks::config::{Aim, Buttons, Config, Control, LoadError, Loaded};
use joyclicks::pad::{
    build_desired, control_target, emit_diff, frac_to_rstick, held_codes, neutral_state, overlay,
    Desired, PadEvent, PadInput, Target,
};
use joyclicks::session::{AimEffect, Msg, Next, Received, Session};
use joyclicks::timing::{time_to_tick, Timing};
use joyclicks::watcher::Watcher;
use std::collections::HashMap;

fn session() -> Session {
    let cfg = Config::default();
    let timing = Timing::new(&cfg);
    Session::new(cfg.buttons, timing)
}

/// The state of a pad that is sent these events.
fn send(keys: &mut HashMap<u16, i32>, abs: &mut HashMap<u16, i32>, events: &[PadEvent]) {
    for e in events {
        match e {
            PadEvent::Key(code, value) => keys.insert(*code, *value),
            PadEvent::Abs(code, value) => abs.insert(*code, *value),
        };
    }
}

#[test]
fn every_control_has_its_target() {
    assert_eq!(control_target(Control::Unbound), None);
    assert_eq!(control_target(Control::R2), Some(Target::Trigger(true)));
    assert_eq!(control_target(Control::L2), Some(Target::Trigger(false)));
    assert_eq!(control_target(Control::R1), Some(Target::Key(0x137)));
    assert_eq!(control_target(Control::L1), Some(Target::Key(0x136)));
    assert_eq!(control_target(Control::Cross), Some(Target::Key(0x130)));
    assert_eq!(control_target(Control::Circle), Some(Target::Key(0x131)));
    assert_eq!(control_target(Control::Square), Some(Target::Key(0x134)));
    assert_eq!(control_target(Control::Triangle), Some(Target::Key(0x133)));
    assert_eq!(control_target(Control::L3), Some(Target::Key(0x13d)));
    assert_eq!(control_target(Control::R3), Some(Target::Key(0x13e)));
    assert_eq!(control_target(Control::DpadUp), Some(Target::Hat(false, -1)));
    assert_eq!(control_target(Control::DpadDown), Some(Target::Hat(false, 1)));
    assert_eq!(control_target(Control::DpadLeft), Some(Target::Hat(true, -1)));
    assert_eq!(control_target(Control::DpadRight), Some(Target::Hat(true, 1)));
}

#[test]
fn right_stick_is_clamped() {
    assert_eq!(frac_to_rstick(0), 0);
    assert_eq!(frac_to_rstick(-32767), -32767);
    assert_eq!(frac_to_rstick(32768), 32767);
    assert_eq!(frac_to_rstick(i32::MIN), -32767);
    assert_eq!(frac_to_rstick(i32::MAX), 32767);
}

#[test]
fn the_pad_at_rest() {
    let d = neutral_state();
    assert_eq!(d.abs.len(), 8);
    assert_eq!(d.abs[&ABS_X], 128);
    assert_eq!(d.abs[&ABS_Y], 128);
    for code in [ABS_RX, ABS_RY, ABS_Z, ABS_RZ, ABS_HAT0X, ABS_HAT0Y] {
        assert_eq!(d.abs[&code], 0);
    }
    assert_eq!(d.keys.len(), 10);
    for code in DECLARED_KEYS {
        assert_eq!(d.keys[&code], 0);
    }
}

#[test]
fn desired_state_starts_empty() {
    let d = Desired::default();
    assert!(d.keys.is_empty() && d.abs.is_empty());
}

#[test]
fn gamepad_input_passes_through() {
    let pad = PadInput { lx: 3, ly: 250, lt: 17, rt: 99, hatx: 1, haty: -1 };
    let mut keys = HashMap::new();
    keys.insert(BTN_SOUTH, 2);
    keys.insert(BTN_EAST, 0);
    let d = build_desired(-40000, 123, &pad, &keys, &HashMap::new(), &Vec::new());
    assert_eq!(d.abs[&ABS_X], 3);
    assert_eq!(d.abs[&ABS_Y], 250);
    assert_eq!(d.abs[&ABS_RX], -32767);
    assert_eq!(d.abs[&ABS_RY], 123);
    assert_eq!(d.abs[&ABS_Z], 17);
    assert_eq!(d.abs[&ABS_RZ], 99);
    assert_eq!(d.abs[&ABS_HAT0X], 1);
    assert_eq!(d.abs[&ABS_HAT0Y], -1);
    assert_eq!(d.keys[&BTN_SOUTH], 1);
    assert_eq!(d.keys[&BTN_EAST], 0);
    assert_eq!(d.keys.len(), 10);
}

#[test]
fn a_held_button_outside_the_declared_ones_is_shown() {
    let mut keys = HashMap::new();
    keys.insert(0x2c0, 1);
    keys.insert(0x2c1, 0);
    let d = build_desired(0, 0, &PadInput::default(), &keys, &HashMap::new(), &Vec::new());
    assert_eq!(d.keys.get(&0x2c0), Some(&1));
    assert_eq!(d.keys.get(&0x2c1), None);
}

#[test]
fn held_controls_and_taps_are_laid_over() {
    let mut held = HashMap::new();
    held.insert(1, true); // R2
    held.insert(2, false); // L2
    held.insert(5, true); // Cross
    held.insert(13, true); // DpadLeft
    held.insert(77, true); // no control
    let pad = PadInput { lx: 128, ly: 128, lt: 40, rt: 40, hatx: 1, haty: 1 };
    let taps = vec![(Control::DpadUp, 9), (Control::R3, 9)];
    let d = build_desired(0, 0, &pad, &HashMap::new(), &held, &taps);
    assert_eq!(d.abs[&ABS_RZ], 255);
    assert_eq!(d.abs[&ABS_Z], 40);
    assert_eq!(d.abs[&ABS_HAT0X], -1);
    assert_eq!(d.abs[&ABS_HAT0Y], -1);
    assert_eq!(d.keys[&BTN_SOUTH], 1);
    assert_eq!(d.keys[&BTN_THUMBR], 1);
    assert_eq!(d.keys[&BTN_WEST], 0);
}

#[test]
fn the_last_tap_wins_the_hat() {
    let mut held = HashMap::new();
    held.insert(11, true); // DpadUp
    let pad = PadInput::default();
    let taps = vec![(Control::DpadUp, 3), (Control::DpadDown, 4)];
    let d = build_desired(0, 0, &pad, &HashMap::new(), &held, &taps);
    assert_eq!(d.abs[&ABS_HAT0Y], 1);
}

#[test]
fn opposed_directions_go_one_way_or_the_other() {
    let mut held = HashMap::new();
    held.insert(11, true); // DpadUp
    held.insert(12, true); // DpadDown
    let d = build_desired(0, 0, &PadInput::default(), &HashMap::new(), &held, &Vec::new());
    assert!(d.abs[&ABS_HAT0Y] == 1 || d.abs[&ABS_HAT0Y] == -1);
    assert_eq!(d.abs[&ABS_HAT0X], 0);
}

#[test]
fn controls_are_laid_over_in_order() {
    let pad = PadInput::default();
    let up_down = vec![Control::DpadUp, Control::DpadDown];
    let down_up = vec![Control::DpadDown, Control::Unbound, Control::DpadUp];
    assert_eq!(overlay(0, 0, &pad, &HashMap::new(), &up_down).abs[&ABS_HAT0Y], 1);
    assert_eq!(overlay(0, 0, &pad, &HashMap::new(), &down_up).abs[&ABS_HAT0Y], -1);
}

#[test]
fn held_codes_are_each_there_once() {
    let mut held = HashMap::new();
    held.insert(3, true);
    held.insert(4, false);
    held.insert(14, true);
    let mut codes = held_codes(&held);
    codes.sort();
    assert_eq!(codes, vec![3, 14]);
}

#[test]
fn only_changes_are_sent() {
    let mut last = neutral_state();
    let mut cur = neutral_state();
    assert!(emit_diff(&last, &cur).is_empty());
    cur.keys.insert(BTN_SOUTH, 1);
    cur.abs.insert(ABS_X, 0);
    assert_eq!(
        emit_diff(&last, &cur),
        vec![PadEvent::Key(BTN_SOUTH, 1), PadEvent::Abs(ABS_X, 0)]
    );
    last.keys.insert(0x2c0, 1);
    assert_eq!(emit_diff(&last, &cur).len(), 2);
    assert_eq!(emit_diff(&Desired::default(), &cur).len(), 18);
}

#[test]
fn sending_the_difference_reaches_the_state() {
    let last = neutral_state();
    let mut cur = neutral_state();
    for (i, code) in DECLARED_KEYS.iter().enumerate() {
        cur.keys.insert(*code, (i % 2) as i32);
    }
    cur.abs.insert(ABS_RX, -5);
    cur.abs.insert(ABS_HAT0X, 1);
    let events = emit_diff(&last, &cur);
    let first_abs = events.iter().position(|e| matches!(e, PadEvent::Abs(_, _))).unwrap();
    assert!(events[first_abs..].iter().all(|e| matches!(e, PadEvent::Abs(_, _))));
    let (mut keys, mut abs) = (last.keys, last.abs);
    send(&mut keys, &mut abs, &events);
    assert_eq!(keys, cur.keys);
    assert_eq!(abs, cur.abs);
}

#[test]
fn timing_of_the_defaults() {
    let t = Timing::new(&Config::default());
    assert_eq!(t, Timing { tick_micros: 2000, tap_ticks: 25, boost_hold_ticks: 30 });
}

#[test]
fn timing_has_lower_bounds() {
    let mut cfg = Config::default();
    cfg.aim = Aim { tick_hz: 10, ..Aim::default() };
    cfg.buttons.tap_ms = 50;
    let t = Timing::new(&cfg);
    assert_eq!(t, Timing { tick_micros: 100_000, tap_ticks: 1, boost_hold_ticks: 1 });
    cfg.aim.tick_hz = 0;
    assert_eq!(Timing::new(&cfg).tick_micros, 1_000_000);
    cfg.aim.tick_hz = u32::MAX;
    cfg.buttons.tap_ms = u32::MAX;
    let t = Timing::new(&cfg);
    assert_eq!(t.tick_micros, 0);
    assert_eq!(t.tap_ticks, u32::MAX as u64 * u32::MAX as u64 / 1000);
}

#[test]
fn time_left_until_the_tick() {
    assert_eq!(time_to_tick(0, 2_000_000), Some(2_000_000));
    assert_eq!(time_to_tick(1_999_999, 2_000_000), Some(1));
    assert_eq!(time_to_tick(2_000_000, 2_000_000), None);
    assert_eq!(time_to_tick(5, 0), None);
}

#[test]
fn buttons_find_their_controls() {
    let b = Buttons::default();
    assert_eq!(b.for_button(BTN_LEFT), Control::R2);
    assert_eq!(b.for_button(BTN_RIGHT), Control::L2);
    assert_eq!(b.for_button(BTN_MIDDLE), Control::R3);
    assert_eq!(b.for_button(BTN_SIDE), Control::Cross);
    assert_eq!(b.for_button(BTN_EXTRA), Control::Square);
    assert_eq!(b.for_button(0x115), Control::Unbound);
    assert_eq!(b.for_wheel(1), Control::DpadUp);
    assert_eq!(b.for_wheel(-1), Control::DpadDown);
}

#[test]
fn mouse_motion_goes_to_the_aim() {
    let mut s = session();
    assert_eq!(s.apply_msg(Msg::MouseRel(4, -9)), AimEffect::Accumulate(4, -9));
}

#[test]
fn clicks_press_and_release() {
    let mut s = session();
    assert_eq!(s.apply_msg(Msg::MouseButton(BTN_LEFT, true)), AimEffect::Keep);
    s.apply_msg(Msg::MouseButton(BTN_SIDE, true));
    s.apply_msg(Msg::MouseButton(0x115, true));
    s.begin_tick(false);
    s.finish_tick(0, 0);
    assert_eq!(s.last_sent.abs[&ABS_RZ], 255);
    assert_eq!(s.last_sent.keys[&BTN_SOUTH], 1);
    assert_eq!(s.mouse_ctrls.len(), 2);
    s.apply_msg(Msg::MouseButton(BTN_LEFT, false));
    s.apply_msg(Msg::MouseButton(BTN_SIDE, false));
    s.begin_tick(false);
    let events = s.finish_tick(0, 0);
    assert_eq!(events, vec![PadEvent::Key(BTN_SOUTH, 0), PadEvent::Abs(ABS_RZ, 0)]);
}

#[test]
fn gamepad_axes_are_remembered_but_for_the_right_stick() {
    let mut s = session();
    for (i, code) in [ABS_X, ABS_Y, ABS_Z, ABS_RZ, ABS_HAT0X, ABS_HAT0Y].iter().enumerate() {
        assert_eq!(s.apply_msg(Msg::PadAbs(*code, 10 + i as i32)), AimEffect::Keep);
    }
    let expected = PadInput { lx: 10, ly: 11, lt: 12, rt: 13, hatx: 14, haty: 15 };
    assert_eq!(s.pad, expected);
    s.apply_msg(Msg::PadAbs(ABS_RX, 77));
    s.apply_msg(Msg::PadAbs(ABS_RY, 77));
    s.apply_msg(Msg::PadAbs(0x2f, 77));
    assert_eq!(s.pad, expected);
}

#[test]
fn undeclared_gamepad_buttons_are_dropped() {
    let mut s = session();
    s.apply_msg(Msg::PadKey(0x138, 1)); // digital L2
    s.apply_msg(Msg::PadKey(BTN_EAST, 1));
    assert_eq!(s.pad_keys.len(), 1);
    s.begin_tick(false);
    s.finish_tick(0, 0);
    assert_eq!(s.last_sent.keys.len(), 10);
    assert_eq!(s.last_sent.keys[&BTN_EAST], 1);
}

#[test]
fn a_wheel_notch_is_held_for_its_ticks() {
    let mut s = session();
    s.begin_tick(false);
    s.apply_msg(Msg::MouseWheel(1));
    for _ in 0..25 {
        s.begin_tick(false);
        s.finish_tick(0, 0);
        assert_eq!(s.last_sent.abs[&ABS_HAT0Y], -1);
    }
    s.begin_tick(false);
    s.finish_tick(0, 0);
    assert_eq!(s.last_sent.abs[&ABS_HAT0Y], 0);
    assert!(s.taps.is_empty());
}

#[test]
fn a_tap_of_one_tick_is_seen_once() {
    let mut cfg = Config::default();
    cfg.buttons.tap_ms = 0;
    let timing = Timing::new(&cfg);
    let mut s = Session::new(cfg.buttons, timing);
    s.apply_msg(Msg::MouseWheel(-1));
    s.begin_tick(false);
    s.finish_tick(0, 0);
    assert_eq!(s.last_sent.abs[&ABS_HAT0Y], 1);
    s.begin_tick(false);
    s.finish_tick(0, 0);
    assert_eq!(s.last_sent.abs[&ABS_HAT0Y], 0);
}

#[test]
fn an_unmapped_wheel_does_nothing() {
    let mut cfg = Config::default();
    cfg.buttons.wheel_up = Control::Unbound;
    let timing = Timing::new(&cfg);
    let mut s = Session::new(cfg.buttons, timing);
    s.apply_msg(Msg::MouseWheel(1));
    assert!(s.taps.is_empty());
}

#[test]
fn pausing_holds_the_pad_at_rest() {
    let mut s = session();
    s.apply_msg(Msg::PadAbs(ABS_X, 0));
    s.apply_msg(Msg::PadKey(BTN_SOUTH, 1));
    s.begin_tick(true);
    s.finish_tick(20000, -20000);
    assert_eq!(s.apply_msg(Msg::TogglePs), AimEffect::Reset(false));
    assert!(!s.active);
    s.begin_tick(false);
    s.finish_tick(20000, -20000);
    let rest = neutral_state();
    assert_eq!(s.last_sent.keys, rest.keys);
    assert_eq!(s.last_sent.abs, rest.abs);
    s.apply_msg(Msg::PadAbs(ABS_Y, 0));
    s.begin_tick(true);
    assert!(s.finish_tick(1, 1).is_empty());
    assert_eq!(s.apply_msg(Msg::TogglePs), AimEffect::Reset(true));
    assert!(s.active);
    s.begin_tick(false);
    s.finish_tick(0, 0);
    assert_eq!(s.last_sent.keys[&BTN_SOUTH], 1);
    assert_eq!(s.last_sent.abs[&ABS_Y], 0);
}

#[test]
fn stillness_is_counted_from_the_last_movement() {
    let mut s = session();
    assert_eq!(s.ticks_since_input, 30);
    s.begin_tick(true);
    assert_eq!(s.ticks_since_input, 0);
    s.begin_tick(false);
    s.begin_tick(false);
    assert_eq!(s.ticks_since_input, 2);
    assert_eq!(s.tick_count, 3);
    s.ticks_since_input = u64::MAX;
    s.begin_tick(false);
    assert_eq!(s.ticks_since_input, u64::MAX);
}

#[test]
fn the_boost_follows_the_movement() {
    let mut s = session();
    let left = |s: &Session| boost_left(s.ticks_since_input, s.boost_hold_ticks);
    assert_eq!(left(&s), BoostLeft::Gone);
    s.begin_tick(true);
    assert_eq!(left(&s), BoostLeft::Whole);
    for _ in 0..29 {
        s.begin_tick(false);
        assert_eq!(left(&s), BoostLeft::Fading);
    }
    s.begin_tick(false);
    assert_eq!(left(&s), BoostLeft::Gone);
}

#[test]
fn what_was_sent_adds_up() {
    let mut s = session();
    let (mut keys, mut abs) = (HashMap::new(), HashMap::new());
    let msgs = [
        Msg::PadAbs(ABS_X, 7),
        Msg::MouseButton(BTN_RIGHT, true),
        Msg::MouseWheel(-1),
        Msg::TogglePs,
        Msg::PadKey(BTN_WEST, 1),
        Msg::TogglePs,
        Msg::MouseButton(BTN_RIGHT, false),
    ];
    for (i, msg) in msgs.iter().enumerate() {
        s.apply_msg(*msg);
        s.begin_tick(i % 2 == 0);
        let events = s.finish_tick(100 * i as i32, -(i as i32));
        send(&mut keys, &mut abs, &events);
        assert_eq!(keys, s.last_sent.keys);
        assert_eq!(abs, s.last_sent.abs);
    }
}

#[test]
fn what_was_received_decides_what_is_next() {
    let mut s = session();
    assert_eq!(
        s.on_received(Received::Message(Msg::MouseRel(1, 2))),
        Next::Wait(AimEffect::Accumulate(1, 2))
    );
    assert_eq!(
        s.on_received(Received::Message(Msg::TogglePs)),
        Next::Wait(AimEffect::Reset(false))
    );
    assert_eq!(s.on_received(Received::Timeout), Next::Tick);
    assert_eq!(s.on_received(Received::Disconnected), Next::Stop);
    assert!(!s.active);
}

#[test]
fn the_config_is_read_again_until_that_succeeds() {
    let mut aim = Aim::default();
    let mut w = Watcher::new(Some(5));
    assert!(!w.should_reload(Some(5)));
    assert!(!w.should_reload(None));
    assert!(w.should_reload(Some(6)));
    let mut config = Config::default();
    config.aim.tick_hz = 250;
    assert!(!w.reloaded(Some(6), &Err(LoadError::Parsing), &mut aim));
    assert!(!w.reloaded(Some(6), &Err(LoadError::Reading), &mut aim));
    assert_eq!(aim.tick_hz, 500);
    assert!(w.should_reload(Some(6)));
    let gone = Ok(Loaded { config: config.clone(), write_out: true });
    assert!(!w.reloaded(Some(6), &gone, &mut aim));
    assert_eq!(aim.tick_hz, 500);
    assert!(w.should_reload(Some(6)));
    let read = Ok(Loaded { config, write_out: false });
    assert!(w.reloaded(Some(6), &read, &mut aim));
    assert_eq!(aim.tick_hz, 250);
    assert!(!w.should_reload(Some(6)));
    assert!(w.should_reload(Some(5)));
    assert!(Watcher::new(None).should_reload(Some(1)));
}
