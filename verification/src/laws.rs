//! What holds of a session over any number of messages and ticks.

use crate::aim::{boost_phase, BoostLeft};
use crate::binary32::Binary32;
use crate::codes::{
    declared, ABS_HAT0X, ABS_HAT0Y, ABS_RX, ABS_RY, ABS_RZ, ABS_X, ABS_Y, ABS_Z,
};
use crate::config::{
    code_round_trip, control_code, control_codes_are_distinct, control_round_trip, Buttons,
    Control,
};
use crate::pad::{
    active_controls, batches_add_up, buttons_are_shown, desired_state, drives,
    events_tell_what_changed, holds, horizontal_hat_is_shown, is_walk, lemma_push_contains, neutral,
    pad_holds, replay, sticks_are_shown, target_of, triggers_are_shown, vertical_hat_is_shown,
    PadEvent, PadInput, PadState,
};
use crate::session::{
    after_msg, after_tick, aim_effect, button_control, lemma_after_tick_is_valid, lemma_live,
    lemma_send_is_seen, live, may_send, tap_fits, valid, wheel_control, AimEffect, Msg,
    SessionState,
};
use crate::stick::{after_effect, at_rest, Stick};
use vstd::prelude::*;

verus! {

/// Something that happens in a session.
pub enum Step {
    Message(Msg),
    /// A tick begins, with or without mouse movement since the last one.
    Tick(bool),
    /// A tick ends: with the aim at these right-stick values these events are sent, and the pad
    /// is to show this state.
    Send(i32, i32, Seq<PadEvent>, PadState),
}

/// The session after one step.
pub open spec fn after_step(s: SessionState, step: Step) -> SessionState {
    match step {
        Step::Message(msg) => after_msg(s, msg),
        Step::Tick(moved) => after_tick(s, moved),
        Step::Send(_, _, _, shown) => SessionState { last_sent: shown, ..s },
    }
}

/// The session after all the steps.
pub open spec fn run(s: SessionState, steps: Seq<Step>) -> SessionState
    decreases steps.len(),
{
    if steps.len() == 0 {
        s
    } else {
        after_step(run(s, steps.drop_last()), steps.last())
    }
}

/// How many of the steps are ticks.
pub open spec fn ticks(steps: Seq<Step>) -> int
    decreases steps.len(),
{
    if steps.len() == 0 {
        0
    } else {
        ticks(steps.drop_last()) + if steps.last() is Tick {
            1int
        } else {
            0
        }
    }
}

/// The step can happen in this session.
pub open spec fn possible(s: SessionState, step: Step) -> bool {
    match step {
        Step::Message(msg) => tap_fits(s, msg),
        Step::Tick(_) => s.tick_count < u64::MAX,
        Step::Send(rx, ry, events, shown) => may_send(s, rx, ry, events, shown),
    }
}

/// Each of the steps can happen after those before it.
pub open spec fn all_possible(s: SessionState, steps: Seq<Step>) -> bool
    decreases steps.len(),
{
    steps.len() == 0 || (all_possible(s, steps.drop_last()) && possible(
        run(s, steps.drop_last()),
        steps.last(),
    ))
}

/// All the events that are sent in these steps.
pub open spec fn events_sent(steps: Seq<Step>) -> Seq<PadEvent>
    decreases steps.len(),
{
    if steps.len() == 0 {
        Seq::empty()
    } else {
        events_sent(steps.drop_last()) + match steps.last() {
            Step::Send(_, _, events, _) => events,
            _ => Seq::empty(),
        }
    }
}

/// A count of ticks is not negative, and no more than that of the steps.
proof fn lemma_ticks_range(steps: Seq<Step>)
    ensures
        0 <= ticks(steps) <= steps.len(),
    decreases steps.len(),
{
    if steps.len() > 0 {
        lemma_ticks_range(steps.drop_last());
    }
}

/// A valid session stays valid whatever happens in it, its settings stay what they are, and
/// its clock counts the ticks.
pub proof fn sessions_stay_valid(s: SessionState, steps: Seq<Step>)
    requires
        valid(s),
        all_possible(s, steps),
    ensures
        valid(run(s, steps)),
        run(s, steps).buttons == s.buttons,
        run(s, steps).tap_ticks == s.tap_ticks,
        run(s, steps).boost_hold_ticks == s.boost_hold_ticks,
        run(s, steps).tick_count == s.tick_count + ticks(steps),
    decreases steps.len(),
{
    if steps.len() > 0 {
        sessions_stay_valid(s, steps.drop_last());
        let before = run(s, steps.drop_last());
        match steps.last() {
            Step::Message(msg) => {
                lemma_after_msg_is_valid(before, msg);
            },
            Step::Tick(moved) => {
                lemma_after_tick_is_valid(before, moved);
            },
            Step::Send(rx, ry, events, shown) => {
                lemma_send_is_seen(before, rx, ry, events, shown);
            },
        }
    }
}

/// Whatever happens in a session, a pad that has received every event so far shows exactly the
/// state that the session takes it to show: no change is lost, and none stays behind.
pub proof fn pad_shows_what_was_sent(s: SessionState, steps: Seq<Step>)
    requires
        valid(s),
        all_possible(s, steps),
    ensures
        replay(s.last_sent, events_sent(steps)) == run(s, steps).last_sent,
    decreases steps.len(),
{
    if steps.len() > 0 {
        let earlier = steps.drop_last();
        let before = run(s, earlier);
        pad_shows_what_was_sent(s, earlier);
        sessions_stay_valid(s, earlier);
        match steps.last() {
            Step::Send(rx, ry, events, shown) => {
                lemma_send_is_seen(before, rx, ry, events, shown);
                batches_add_up(s.last_sent, events_sent(earlier), events);
            },
            _ => {
                assert(events_sent(steps) == events_sent(earlier));
            },
        }
    }
}

/// From the first tick that ends in a paused session the pad is at rest, until the session is
/// resumed.
pub proof fn paused_pad_is_at_rest(s: SessionState, steps: Seq<Step>)
    requires
        valid(s),
        all_possible(s, steps),
        !s.active,
        forall|i: int|
            0 <= i < steps.len() ==> #[trigger] steps[i] != Step::Message(Msg::TogglePs),
    ensures
        !run(s, steps).active,
        (exists|i: int| 0 <= i < steps.len() && #[trigger] steps[i] is Send) ==> replay(
            s.last_sent,
            events_sent(steps),
        ) == neutral() && run(s, steps).last_sent == neutral(),
    decreases steps.len(),
{
    pad_shows_what_was_sent(s, steps);
    if steps.len() > 0 {
        let earlier = steps.drop_last();
        assert forall|i: int| 0 <= i < earlier.len() implies #[trigger] earlier[i]
            != Step::Message(Msg::TogglePs) by {
            assert(earlier[i] == steps[i]);
        }
        paused_pad_is_at_rest(s, earlier);
        assert(steps[steps.len() - 1] != Step::Message(Msg::TogglePs));
        if steps.last() !is Send && exists|i: int|
            0 <= i < steps.len() && #[trigger] steps[i] is Send {
            let i = choose|i: int| 0 <= i < steps.len() && #[trigger] steps[i] is Send;
            assert(earlier[i] is Send);
        }
    }
}

/// A message keeps a session valid.
proof fn lemma_after_msg_is_valid(s: SessionState, msg: Msg)
    requires
        valid(s),
        tap_fits(s, msg),
    ensures
        valid(after_msg(s, msg)),
{
}

/// A tap that is pending stays pending until its last tick has passed.
proof fn lemma_tap_stays(s: SessionState, steps: Seq<Step>, tap: (Control, u64))
    requires
        s.taps.contains(tap),
        s.tick_count + ticks(steps) <= tap.1,
    ensures
        run(s, steps).taps.contains(tap),
        run(s, steps).tick_count == s.tick_count + ticks(steps),
    decreases steps.len(),
{
    if steps.len() > 0 {
        let before = run(s, steps.drop_last());
        lemma_tap_stays(s, steps.drop_last(), tap);
        match steps.last() {
            Step::Message(msg) => {
                if let Msg::MouseWheel(dir) = msg {
                    lemma_push_contains(
                        before.taps,
                        (
                            wheel_control(before.buttons, dir),
                            (before.tick_count + before.tap_ticks) as u64,
                        ),
                    );
                }
            },
            Step::Tick(moved) => {
                lemma_live(before.taps, before.tick_count + 1);
            },
            Step::Send(_, _, _, _) => {},
        }
    }
}

/// A wheel notch on a mapped direction taps its control: the tap is there through exactly the
/// next `tap_ticks` ticks, whatever else happens, and then it is gone.
pub proof fn tap_lasts_its_ticks(s: SessionState, dir: i32, steps: Seq<Step>)
    requires
        valid(s),
        wheel_control(s.buttons, dir) != Control::Unbound,
        tap_fits(s, Msg::MouseWheel(dir)),
        all_possible(after_msg(s, Msg::MouseWheel(dir)), steps),
    ensures
        run(after_msg(s, Msg::MouseWheel(dir)), steps).taps.contains(
            (wheel_control(s.buttons, dir), (s.tick_count + s.tap_ticks) as u64),
        ) <==> ticks(steps) <= s.tap_ticks,
{
    let c = wheel_control(s.buttons, dir);
    let tap = (c, (s.tick_count + s.tap_ticks) as u64);
    let tapped = after_msg(s, Msg::MouseWheel(dir));
    lemma_ticks_range(steps);
    lemma_push_contains(s.taps, tap);
    lemma_after_msg_is_valid(s, Msg::MouseWheel(dir));
    sessions_stay_valid(tapped, steps);
    if ticks(steps) <= s.tap_ticks {
        lemma_tap_stays(tapped, steps, tap);
    } else {
        let after = run(tapped, steps);
        if after.taps.contains(tap) {
            let i = after.taps.index_of(tap);
            assert(after.taps[i] == tap);
        }
    }
}

/// The control of a pending tap is among the active controls, for every walk; a button or a
/// trigger that it drives is driven.
pub proof fn tap_is_active(s: SessionState, order: Seq<u8>, tap: (Control, u64))
    requires
        s.taps.contains(tap),
    ensures
        active_controls(order, s.taps).contains(tap.0),
        target_of(tap.0) matches Some(t) ==> drives(active_controls(order, s.taps), t),
{
    let active = active_controls(order, s.taps);
    let i = s.taps.index_of(tap);
    assert(active[order.len() + i] == tap.0);
    if let Some(t) = target_of(tap.0) {
        assert(target_of(active[order.len() + i]) == Some(t));
    }
}

/// Only the PS button pauses and resumes.
pub proof fn only_toggle_changes_active(s: SessionState, step: Step)
    ensures
        after_step(s, step).active != s.active <==> step == Step::Message(Msg::TogglePs),
{
}

/// Pausing and resuming at once leaves the session as it was.
pub proof fn toggle_twice_restores(s: SessionState)
    ensures
        after_msg(after_msg(s, Msg::TogglePs), Msg::TogglePs) == s,
{
}

/// Pausing and resuming each reset the aim integration, whatever it was: no counts are left over
/// and the stick is centered, so that aim does not lurch.
pub proof fn toggle_resets_the_aim(
    s: SessionState,
    stick: Stick,
    sum_x: Binary32,
    sum_y: Binary32,
)
    ensures
        after_effect(stick, aim_effect(s, Msg::TogglePs), sum_x, sum_y) == at_rest(),
{
}

/// Only mouse motion and the PS button touch the aim integration, and motion leaves the stick
/// where it is until the next tick.
pub proof fn other_messages_keep_the_aim(
    s: SessionState,
    stick: Stick,
    msg: Msg,
    sum_x: Binary32,
    sum_y: Binary32,
)
    requires
        msg != Msg::TogglePs,
    ensures
        after_effect(stick, aim_effect(s, msg), sum_x, sum_y).rx == stick.rx,
        after_effect(stick, aim_effect(s, msg), sum_x, sum_y).ry == stick.ry,
        msg !is MouseRel ==> after_effect(stick, aim_effect(s, msg), sum_x, sum_y) == stick,
{
}

/// The gamepad's right stick has no effect: the mouse owns aim.
pub proof fn pad_right_stick_is_ignored(s: SessionState, value: i32)
    ensures
        after_msg(s, Msg::PadAbs(ABS_RX, value)) == s,
        after_msg(s, Msg::PadAbs(ABS_RY, value)) == s,
{
}

/// A gamepad button that the virtual pad does not have leaves no trace.
pub proof fn undeclared_button_is_ignored(s: SessionState, code: u16, value: i32)
    requires
        !declared(code),
    ensures
        after_msg(s, Msg::PadKey(code, value)) == s,
{
}

/// A mapped mouse button holds its control while it is down and lets go of it when it comes
/// up; what the other controls do is not touched.
pub proof fn mouse_button_holds_its_control(
    s: SessionState,
    code: u16,
    pressed: bool,
    other: Control,
)
    requires
        button_control(s.buttons, code) != Control::Unbound,
    ensures
        holds(
            after_msg(s, Msg::MouseButton(code, pressed)).mouse_ctrls,
            button_control(s.buttons, code),
        ) == pressed,
        other != button_control(s.buttons, code) ==> holds(
            after_msg(s, Msg::MouseButton(code, pressed)).mouse_ctrls,
            other,
        ) == holds(s.mouse_ctrls, other),
{
    control_codes_are_distinct(other, button_control(s.buttons, code));
}

/// A held control is among the active controls, for every walk, and one that is neither held
/// nor tapped is not.
pub proof fn held_controls_are_active(
    order: Seq<u8>,
    held: Map<u8, bool>,
    taps: Seq<(Control, u64)>,
    c: Control,
)
    requires
        is_walk(order, held),
        c != Control::Unbound,
    ensures
        active_controls(order, taps).contains(c) <==> holds(held, c) || exists|i: int|
            0 <= i < taps.len() && (#[trigger] taps[i]).0 == c,
{
    let active = active_controls(order, taps);
    control_round_trip(c);
    if holds(held, c) {
        assert(order.contains(control_code(c)));
        let i = order.index_of(control_code(c));
        assert(active[i] == c);
    }
    if exists|i: int| 0 <= i < taps.len() && (#[trigger] taps[i]).0 == c {
        let i = choose|i: int| 0 <= i < taps.len() && (#[trigger] taps[i]).0 == c;
        assert(active[order.len() + i] == c);
    }
    if active.contains(c) {
        let i = active.index_of(c);
        if i < order.len() {
            assert(order.contains(order[i]));
            code_round_trip(order[i]);
        } else {
            assert(taps[i - order.len()].0 == c);
        }
    }
}

/// The left stick always is the gamepad's. Where no control is active, the triggers, the hat
/// and the buttons are the gamepad's too.
pub proof fn gamepad_passes_through(
    rx: i32,
    ry: i32,
    pad: PadInput,
    pad_keys: Map<u16, i32>,
    active: Seq<Control>,
)
    ensures
        ({
            let d = desired_state(rx, ry, pad, pad_keys, active);
            &&& d.abs[ABS_X] == pad.lx
            &&& d.abs[ABS_Y] == pad.ly
            &&& active.len() == 0 ==> {
                &&& d.abs[ABS_Z] == pad.lt
                &&& d.abs[ABS_RZ] == pad.rt
                &&& d.abs[ABS_HAT0X] == pad.hatx
                &&& d.abs[ABS_HAT0Y] == pad.haty
                &&& forall|k: u16| #[trigger]
                    d.keys.contains_key(k) ==> (d.keys[k] == 1 <==> pad_holds(pad_keys, k))
            }
        }),
{
}

/// No movement for so many ticks: the time since the last movement grows by one with each
/// tick, up to the largest number that the counter holds.
pub proof fn stillness_is_counted(s: SessionState, steps: Seq<Step>)
    requires
        0 <= s.ticks_since_input <= u64::MAX,
        forall|i: int| 0 <= i < steps.len() ==> #[trigger] steps[i] != Step::Tick(true),
    ensures
        run(s, steps).ticks_since_input == if s.ticks_since_input + ticks(steps) <= u64::MAX {
            s.ticks_since_input + ticks(steps)
        } else {
            u64::MAX as int
        },
    decreases steps.len(),
{
    lemma_ticks_range(steps);
    if steps.len() > 0 {
        let shorter = steps.drop_last();
        assert forall|i: int| 0 <= i < shorter.len() implies #[trigger] shorter[i] != Step::Tick(
            true,
        ) by {
            assert(shorter[i] == steps[i]);
        }
        stillness_is_counted(s, shorter);
        assert(steps[steps.len() - 1] != Step::Tick(true));
    }
}

/// A tick with mouse movement has the whole boost.
pub proof fn boost_is_whole_while_moving(s: SessionState)
    requires
        valid(s),
    ensures
        boost_phase(after_tick(s, true).ticks_since_input, after_tick(s, true).boost_hold_ticks)
            == BoostLeft::Whole,
{
}

/// After a movement the boost is gone exactly from the tick on that completes the hold time,
/// where the mouse does not move again.
pub proof fn boost_is_gone_after_the_hold(s: SessionState, steps: Seq<Step>)
    requires
        valid(s),
        s.boost_hold_ticks <= u64::MAX,
        all_possible(after_tick(s, true), steps),
        forall|i: int| 0 <= i < steps.len() ==> #[trigger] steps[i] != Step::Tick(true),
    ensures
        ({
            let after = run(after_tick(s, true), steps);
            boost_phase(after.ticks_since_input, after.boost_hold_ticks) == BoostLeft::Gone
                <==> ticks(steps) >= s.boost_hold_ticks
        }),
{
    let start = after_tick(s, true);
    lemma_after_tick_is_valid(s, true);
    sessions_stay_valid(start, steps);
    stillness_is_counted(start, steps);
}

/// Mouse motion changes nothing of the session and goes to the aim with both its counts, which
/// become part of what is not consumed yet.
pub proof fn motion_goes_to_the_aim(
    s: SessionState,
    stick: Stick,
    dx: i32,
    dy: i32,
    sum_x: Binary32,
    sum_y: Binary32,
)
    ensures
        after_msg(s, Msg::MouseRel(dx, dy)) == s,
        aim_effect(s, Msg::MouseRel(dx, dy)) == AimEffect::Accumulate(dx, dy),
        ({
            let r = after_effect(stick, aim_effect(s, Msg::MouseRel(dx, dy)), sum_x, sum_y);
            r.accum_x == sum_x && r.accum_y == sum_y && r.rx == stick.rx && r.ry == stick.ry
        }),
{
}

/// The PS button turns active into paused and back, changes nothing else, and resets the aim,
/// with word of what the session is now.
pub proof fn toggle_switches_and_tells(s: SessionState)
    ensures
        after_msg(s, Msg::TogglePs) == (SessionState { active: !s.active, ..s }),
        aim_effect(s, Msg::TogglePs) == AimEffect::Reset(!s.active),
{
}

/// A gamepad axis takes the value that is reported for it, whatever it is; the other axes and
/// everything else stay, and the aim is not concerned.
pub proof fn gamepad_axes_are_taken(s: SessionState, code: u16, value: i32)
    ensures
        ({
            let t = after_msg(s, Msg::PadAbs(code, value));
            &&& t == (SessionState { pad: t.pad, ..s })
            &&& t.pad.lx == if code == 0x00 { value } else { s.pad.lx }
            &&& t.pad.ly == if code == 0x01 { value } else { s.pad.ly }
            &&& t.pad.lt == if code == 0x02 { value } else { s.pad.lt }
            &&& t.pad.rt == if code == 0x05 { value } else { s.pad.rt }
            &&& t.pad.hatx == if code == 0x10 { value } else { s.pad.hatx }
            &&& t.pad.haty == if code == 0x11 { value } else { s.pad.haty }
            &&& aim_effect(s, Msg::PadAbs(code, value)) == AimEffect::Keep
        }),
{
}

/// A declared gamepad button has the value that is reported for it, so that it is held exactly
/// where that is not 0; what is known of the other buttons and everything else stays, and the aim
/// is not concerned.
pub proof fn gamepad_buttons_are_taken(s: SessionState, code: u16, value: i32, other: u16)
    ensures
        ({
            let t = after_msg(s, Msg::PadKey(code, value));
            &&& t == (SessionState { pad_keys: t.pad_keys, ..s })
            &&& declared(code) ==> t.pad_keys.contains_key(code) && t.pad_keys[code] == value
                && pad_holds(t.pad_keys, code) == (value != 0)
            &&& other != code || !declared(code) ==> t.pad_keys.contains_key(other)
                == s.pad_keys.contains_key(other) && (s.pad_keys.contains_key(other)
                ==> t.pad_keys[other] == s.pad_keys[other]) && pad_holds(t.pad_keys, other)
                == pad_holds(s.pad_keys, other)
            &&& aim_effect(s, Msg::PadKey(code, value)) == AimEffect::Keep
        }),
{
}

/// A button that is pressed and let go again is up.
pub proof fn released_gamepad_button_is_up(s: SessionState, code: u16, value: i32)
    ensures
        ({
            let t = after_msg(after_msg(s, Msg::PadKey(code, value)), Msg::PadKey(code, 0));
            declared(code) ==> !(t.pad_keys.contains_key(code) && t.pad_keys[code] != 0)
        }),
{
}

/// Each mouse button has the control of its own setting, and other buttons have none; the wheel
/// has one setting for each direction.
pub proof fn settings_map_the_mouse(b: Buttons, code: u16, dir: i32)
    ensures
        button_control(b, 0x110) == b.left_click,
        button_control(b, 0x111) == b.right_click,
        button_control(b, 0x112) == b.middle_click,
        button_control(b, 0x113) == b.side,
        button_control(b, 0x114) == b.extra,
        code < 0x110 || code > 0x114 ==> button_control(b, code) == Control::Unbound,
        dir > 0 ==> wheel_control(b, dir) == b.wheel_up,
        dir <= 0 ==> wheel_control(b, dir) == b.wheel_down,
{
}

/// A mouse button marks its control as down or up, by the control's number; the other controls
/// and everything else stay. A button without a control changes nothing.
pub proof fn mouse_buttons_are_taken(s: SessionState, code: u16, pressed: bool, other: u8)
    ensures
        ({
            let c = button_control(s.buttons, code);
            let t = after_msg(s, Msg::MouseButton(code, pressed));
            &&& c == Control::Unbound ==> t == s
            &&& t == (SessionState { mouse_ctrls: t.mouse_ctrls, ..s })
            &&& c != Control::Unbound ==> t.mouse_ctrls.contains_key(control_code(c))
                && t.mouse_ctrls[control_code(c)] == pressed
            &&& other != control_code(c) ==> t.mouse_ctrls.contains_key(other)
                == s.mouse_ctrls.contains_key(other) && (s.mouse_ctrls.contains_key(other)
                ==> t.mouse_ctrls[other] == s.mouse_ctrls[other])
            &&& aim_effect(s, Msg::MouseButton(code, pressed)) == AimEffect::Keep
        }),
{
}

/// A wheel notch adds one tap of its control behind those that are pending, and changes nothing
/// else; a direction without a control changes nothing.
pub proof fn wheel_notches_are_taken(s: SessionState, dir: i32)
    ensures
        ({
            let c = wheel_control(s.buttons, dir);
            let t = after_msg(s, Msg::MouseWheel(dir));
            &&& c == Control::Unbound ==> t == s
            &&& t == (SessionState { taps: t.taps, ..s })
            &&& c != Control::Unbound ==> t.taps.len() == s.taps.len() + 1 && t.taps.drop_last()
                == s.taps && t.taps.last().0 == c
            &&& c != Control::Unbound && 0 <= s.tick_count + s.tap_ticks <= u64::MAX
                ==> t.taps.last().1 == s.tick_count + s.tap_ticks
            &&& aim_effect(s, Msg::MouseWheel(dir)) == AimEffect::Keep
        }),
{
}

/// A message can always be taken in while the clock is a tap's length away from its end.
pub proof fn messages_fit(s: SessionState, msg: Msg)
    requires
        s.tick_count + s.tap_ticks <= u64::MAX,
    ensures
        tap_fits(s, msg),
{
}

/// A tick moves the clock on by one, counts the time since the last movement anew or on, lets go
/// of the taps whose last tick has passed, and changes nothing else.
pub proof fn ticks_move_on(s: SessionState, moved: bool, tap: (Control, u64))
    requires
        0 <= s.ticks_since_input <= u64::MAX,
    ensures
        ({
            let t = after_tick(s, moved);
            &&& t == (SessionState {
                tick_count: t.tick_count,
                ticks_since_input: t.ticks_since_input,
                taps: t.taps,
                ..s
            })
            &&& t.tick_count == s.tick_count + 1
            &&& moved ==> t.ticks_since_input == 0
            &&& !moved && s.ticks_since_input < u64::MAX ==> t.ticks_since_input
                == s.ticks_since_input + 1
            &&& !moved && s.ticks_since_input == u64::MAX ==> t.ticks_since_input == u64::MAX
            &&& t.taps.contains(tap) <==> s.taps.contains(tap) && tap.1 > s.tick_count
        }),
{
    lemma_live(s.taps, s.tick_count + 1);
}

/// Taps expire one by one: each on its own account, the others keeping their order and number.
pub proof fn taps_expire_one_by_one(
    first: Seq<(Control, u64)>,
    second: Seq<(Control, u64)>,
    tap: (Control, u64),
    now: int,
)
    ensures
        live(first + second, now) == live(first, now) + live(second, now),
        tap.1 >= now ==> live(seq![tap], now) == seq![tap],
        tap.1 < now ==> live(seq![tap], now) == Seq::<(Control, u64)>::empty(),
    decreases second.len(),
{
    reveal(Seq::filter);
    reveal_with_fuel(Seq::filter, 2);
    assert(seq![tap].drop_last() == Seq::<(Control, u64)>::empty());
    assert(live(Seq::empty(), now) == Seq::<(Control, u64)>::empty());
    if second.len() == 0 {
        assert(first + second == first);
    } else {
        assert((first + second).drop_last() == first + second.drop_last());
        taps_expire_one_by_one(first, second.drop_last(), tap, now);
    }
}

/// The control is held by the mouse or tapped by its wheel.
pub open spec fn asked_for(s: SessionState, c: Control) -> bool {
    (s.mouse_ctrls.contains_key(control_code(c)) && s.mouse_ctrls[control_code(c)]) || exists|
        i: int,
    |
        0 <= i < s.taps.len() && (#[trigger] s.taps[i]).0 == c
}

/// What an active session sends shows, whichever way the held controls are walked: the gamepad's
/// left stick, the aim on the right one, each trigger full where its control is asked for and
/// the gamepad's elsewhere, and the hat the gamepad's where no control asks for it.
pub proof fn active_session_shows_axes(
    s: SessionState,
    rx: i32,
    ry: i32,
    events: Seq<PadEvent>,
    shown: PadState,
)
    requires
        may_send(s, rx, ry, events, shown),
        s.active,
    ensures
        shown.abs[ABS_X] == s.pad.lx,
        shown.abs[ABS_Y] == s.pad.ly,
        -32767 <= rx <= 32767 ==> shown.abs[ABS_RX] == rx,
        -32767 <= ry <= 32767 ==> shown.abs[ABS_RY] == ry,
        rx > 32767 ==> shown.abs[ABS_RX] == 32767,
        ry > 32767 ==> shown.abs[ABS_RY] == 32767,
        rx < -32767 ==> shown.abs[ABS_RX] == -32767,
        ry < -32767 ==> shown.abs[ABS_RY] == -32767,
        asked_for(s, Control::L2) ==> shown.abs[ABS_Z] == 255,
        !asked_for(s, Control::L2) ==> shown.abs[ABS_Z] == s.pad.lt,
        asked_for(s, Control::R2) ==> shown.abs[ABS_RZ] == 255,
        !asked_for(s, Control::R2) ==> shown.abs[ABS_RZ] == s.pad.rt,
        !asked_for(s, Control::DpadUp) && !asked_for(s, Control::DpadDown) ==> shown.abs[ABS_HAT0Y]
            == s.pad.haty,
        !asked_for(s, Control::DpadLeft) && !asked_for(s, Control::DpadRight)
            ==> shown.abs[ABS_HAT0X] == s.pad.hatx,
{
    let active = lemma_shown_by_controls(s, rx, ry, events, shown);
    sticks_are_shown(rx, ry, s.pad, s.pad_keys, active);
    triggers_are_shown(rx, ry, s.pad, s.pad_keys, active);
    vertical_hat_is_shown(rx, ry, s.pad, s.pad_keys, active, 0);
    horizontal_hat_is_shown(rx, ry, s.pad, s.pad_keys, active, 0);
}

/// The controls that an active session shows are exactly those that are asked for; the latest
/// taps come last.
proof fn lemma_shown_by_controls(
    s: SessionState,
    rx: i32,
    ry: i32,
    events: Seq<PadEvent>,
    shown: PadState,
) -> (active: Seq<Control>)
    requires
        may_send(s, rx, ry, events, shown),
        s.active,
    ensures
        shown == desired_state(rx, ry, s.pad, s.pad_keys, active),
        forall|c: Control| c != Control::Unbound ==> (#[trigger] active.contains(c) <==> asked_for(
            s,
            c,
        )),
        active.len() >= s.taps.len(),
        forall|i: int|
            0 <= i < s.taps.len() ==> active[active.len() - s.taps.len() + i] == (
            #[trigger] s.taps[i]).0,
{
    let order = choose|order: Seq<u8>| #[trigger]
        is_walk(order, s.mouse_ctrls) && shown == desired_state(
            rx,
            ry,
            s.pad,
            s.pad_keys,
            active_controls(order, s.taps),
        );
    let active = active_controls(order, s.taps);
    assert forall|c: Control| c != Control::Unbound implies (#[trigger] active.contains(c)
        <==> asked_for(s, c)) by {
        held_controls_are_active(order, s.mouse_ctrls, s.taps, c);
    }
    active
}

/// What an active session sends shows a button down exactly where the gamepad holds it or its
/// control is asked for.
pub proof fn active_session_shows_buttons(
    s: SessionState,
    rx: i32,
    ry: i32,
    events: Seq<PadEvent>,
    shown: PadState,
    k: u16,
)
    requires
        may_send(s, rx, ry, events, shown),
        s.active,
        declared(k),
    ensures
        ({
            let held = s.pad_keys.contains_key(k) && s.pad_keys[k] != 0;
            let pressed = match k {
                0x130u16 => asked_for(s, Control::Cross),
                0x131u16 => asked_for(s, Control::Circle),
                0x133u16 => asked_for(s, Control::Triangle),
                0x134u16 => asked_for(s, Control::Square),
                0x136u16 => asked_for(s, Control::L1),
                0x137u16 => asked_for(s, Control::R1),
                0x13du16 => asked_for(s, Control::L3),
                0x13eu16 => asked_for(s, Control::R3),
                _ => false,
            };
            &&& shown.keys.contains_key(k)
            &&& shown.keys[k] == if held || pressed {
                1int
            } else {
                0
            }
        }),
{
    let active = lemma_shown_by_controls(s, rx, ry, events, shown);
    buttons_are_shown(rx, ry, s.pad, s.pad_keys, active, k);
}

/// What an active session sends shows the vertical hat where its latest tap points, and where
/// there is no tap for it, where the one direction that is held points.
pub proof fn active_session_shows_vertical_hat(
    s: SessionState,
    rx: i32,
    ry: i32,
    events: Seq<PadEvent>,
    shown: PadState,
    i: int,
)
    requires
        may_send(s, rx, ry, events, shown),
        s.active,
    ensures
        0 <= i < s.taps.len() && (forall|j: int|
            i < j < s.taps.len() ==> (#[trigger] s.taps[j]).0 != Control::DpadUp && s.taps[j].0
                != Control::DpadDown) ==> {
            &&& s.taps[i].0 == Control::DpadUp ==> shown.abs[ABS_HAT0Y] == -1
            &&& s.taps[i].0 == Control::DpadDown ==> shown.abs[ABS_HAT0Y] == 1
        },
        asked_for(s, Control::DpadUp) && !asked_for(s, Control::DpadDown)
            ==> shown.abs[ABS_HAT0Y] == -1,
        asked_for(s, Control::DpadDown) && !asked_for(s, Control::DpadUp)
            ==> shown.abs[ABS_HAT0Y] == 1,
        asked_for(s, Control::DpadUp) && asked_for(s, Control::DpadDown) ==> shown.abs[ABS_HAT0Y]
            == -1 || shown.abs[ABS_HAT0Y] == 1,
{
    let active = lemma_shown_by_controls(s, rx, ry, events, shown);
    let base = active.len() - s.taps.len();
    if 0 <= i < s.taps.len() && forall|j: int|
        i < j < s.taps.len() ==> (#[trigger] s.taps[j]).0 != Control::DpadUp && s.taps[j].0
            != Control::DpadDown {
        assert forall|j: int| base + i < j < active.len() implies #[trigger] active[j]
            != Control::DpadUp && active[j] != Control::DpadDown by {
            assert(active[j] == s.taps[j - base].0);
        }
        vertical_hat_is_shown(rx, ry, s.pad, s.pad_keys, active, base + i);
    }
    let up = active.contains(Control::DpadUp);
    let down = active.contains(Control::DpadDown);
    assert(up <==> asked_for(s, Control::DpadUp));
    assert(down <==> asked_for(s, Control::DpadDown));
    if up || down {
        let l = lemma_last_of_two(active, Control::DpadUp, Control::DpadDown);
        assert(active.contains(active[l]));
        vertical_hat_is_shown(rx, ry, s.pad, s.pad_keys, active, l);
    }
}

/// What an active session sends shows the horizontal hat where its latest tap points, and where
/// there is no tap for it, where the one direction that is held points.
pub proof fn active_session_shows_horizontal_hat(
    s: SessionState,
    rx: i32,
    ry: i32,
    events: Seq<PadEvent>,
    shown: PadState,
    i: int,
)
    requires
        may_send(s, rx, ry, events, shown),
        s.active,
    ensures
        0 <= i < s.taps.len() && (forall|j: int|
            i < j < s.taps.len() ==> (#[trigger] s.taps[j]).0 != Control::DpadLeft && s.taps[j].0
                != Control::DpadRight) ==> {
            &&& s.taps[i].0 == Control::DpadLeft ==> shown.abs[ABS_HAT0X] == -1
            &&& s.taps[i].0 == Control::DpadRight ==> shown.abs[ABS_HAT0X] == 1
        },
        asked_for(s, Control::DpadLeft) && !asked_for(s, Control::DpadRight)
            ==> shown.abs[ABS_HAT0X] == -1,
        asked_for(s, Control::DpadRight) && !asked_for(s, Control::DpadLeft)
            ==> shown.abs[ABS_HAT0X] == 1,
        asked_for(s, Control::DpadLeft) && asked_for(s, Control::DpadRight)
            ==> shown.abs[ABS_HAT0X] == -1 || shown.abs[ABS_HAT0X] == 1,
{
    let active = lemma_shown_by_controls(s, rx, ry, events, shown);
    let base = active.len() - s.taps.len();
    if 0 <= i < s.taps.len() && forall|j: int|
        i < j < s.taps.len() ==> (#[trigger] s.taps[j]).0 != Control::DpadLeft && s.taps[j].0
            != Control::DpadRight {
        assert forall|j: int| base + i < j < active.len() implies #[trigger] active[j]
            != Control::DpadLeft && active[j] != Control::DpadRight by {
            assert(active[j] == s.taps[j - base].0);
        }
        horizontal_hat_is_shown(rx, ry, s.pad, s.pad_keys, active, base + i);
    }
    let left = active.contains(Control::DpadLeft);
    let right = active.contains(Control::DpadRight);
    assert(left <==> asked_for(s, Control::DpadLeft));
    assert(right <==> asked_for(s, Control::DpadRight));
    if left || right {
        let l = lemma_last_of_two(active, Control::DpadLeft, Control::DpadRight);
        assert(active.contains(active[l]));
        horizontal_hat_is_shown(rx, ry, s.pad, s.pad_keys, active, l);
    }
}

/// The last place of either of two controls.
proof fn lemma_last_of_two(active: Seq<Control>, a: Control, b: Control) -> (l: int)
    requires
        active.contains(a) || active.contains(b),
    ensures
        0 <= l < active.len(),
        active[l] == a || active[l] == b,
        forall|j: int| l < j < active.len() ==> #[trigger] active[j] != a && active[j] != b,
    decreases active.len(),
{
    if active.last() == a || active.last() == b {
        active.len() - 1
    } else {
        let shorter = active.drop_last();
        lemma_push_contains(shorter, active.last());
        assert(active == shorter.push(active.last()));
        let l = lemma_last_of_two(shorter, a, b);
        assert forall|j: int| l < j < active.len() implies #[trigger] active[j] != a && active[j]
            != b by {
            if j < shorter.len() {
                assert(shorter[j] == active[j]);
            }
        }
        l
    }
}

/// What a paused session sends leaves nothing held: the left stick is at 128, every other axis at
/// 0 and every button up, whatever is pressed and moved.
pub proof fn paused_session_shows_rest(
    s: SessionState,
    rx: i32,
    ry: i32,
    events: Seq<PadEvent>,
    shown: PadState,
    k: u16,
)
    requires
        may_send(s, rx, ry, events, shown),
        !s.active,
    ensures
        shown.abs[ABS_X] == 128,
        shown.abs[ABS_Y] == 128,
        shown.abs[ABS_RX] == 0,
        shown.abs[ABS_RY] == 0,
        shown.abs[ABS_Z] == 0,
        shown.abs[ABS_RZ] == 0,
        shown.abs[ABS_HAT0X] == 0,
        shown.abs[ABS_HAT0Y] == 0,
        declared(k) ==> shown.keys.contains_key(k) && shown.keys[k] == 0,
{
}

/// What is sent is the difference to what was sent before: the new values, of what has changed.
pub proof fn sends_tell_what_changed(
    s: SessionState,
    rx: i32,
    ry: i32,
    events: Seq<PadEvent>,
    shown: PadState,
    code: u16,
    value: i32,
)
    requires
        may_send(s, rx, ry, events, shown),
    ensures
        events.contains(PadEvent::Key(code, value)) <==> shown.keys.contains_key(code)
            && shown.keys[code] == value && (s.last_sent.keys.contains_key(code)
            ==> s.last_sent.keys[code] != value),
        events.contains(PadEvent::Abs(code, value)) <==> shown.abs.contains_key(code)
            && shown.abs[code] == value && (s.last_sent.abs.contains_key(code)
            ==> s.last_sent.abs[code] != value),
{
    events_tell_what_changed(events, s.last_sent, shown, code, value, 0, 0);
}

} // verus!
