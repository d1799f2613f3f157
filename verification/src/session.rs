//! The merging session: what arrives from the two devices, what is remembered of it, and what
//! each tick sends to the virtual pad.

use crate::codes::{
    declared, is_declared, ABS_HAT0X, ABS_HAT0Y, ABS_RZ, ABS_X, ABS_Y, ABS_Z, BTN_EXTRA, BTN_LEFT,
    BTN_MIDDLE, BTN_RIGHT, BTN_SIDE,
};
use crate::config::{control_code, control_to_u8, Buttons, Control};
use crate::pad::{
    active_controls, build_desired, desired_has_all_codes, desired_state, diff_reaches_desired,
    emit_diff, is_diff, is_walk, lemma_push_contains, neutral, neutral_state, replay, Desired,
    PadEvent, PadInput, PadState,
};
use crate::timing::Timing;
use std::collections::HashMap;
use vstd::prelude::*;

verus! {

/// Messages from the device readers.
#[derive(Debug, Clone, Copy, PartialEq, Eq, Structural)]
pub enum Msg {
    MouseRel(i32, i32),
    MouseButton(u16, bool),
    /// +1 = up, -1 = down
    MouseWheel(i32),
    PadAbs(u16, i32),
    PadKey(u16, i32),
    /// PS button pressed -> toggle grab/active
    TogglePs,
}

/// What a message does to the aim integration.
#[derive(Debug, Clone, Copy, PartialEq, Eq, Structural)]
pub enum AimEffect {
    Keep,
    /// Add these mouse counts to what is not consumed yet.
    Accumulate(i32, i32),
    /// Drop unconsumed counts and center the stick, so that aim does not lurch on resume.
    /// Holds whether the session is active now.
    Reset(bool),
}

/// The control that a mouse button is mapped to.
pub open spec fn button_control(b: Buttons, code: u16) -> Control {
    if code == BTN_LEFT {
        b.left_click
    } else if code == BTN_RIGHT {
        b.right_click
    } else if code == BTN_MIDDLE {
        b.middle_click
    } else if code == BTN_SIDE {
        b.side
    } else if code == BTN_EXTRA {
        b.extra
    } else {
        Control::Unbound
    }
}

/// The control that a wheel notch is mapped to.
pub open spec fn wheel_control(b: Buttons, dir: i32) -> Control {
    if dir > 0 {
        b.wheel_up
    } else {
        b.wheel_down
    }
}

impl Buttons {
    /// The control that a mouse button is mapped to.
    pub fn for_button(&self, code: u16) -> (r: Control)
        ensures
            r == button_control(*self, code),
    {
        match code {
            BTN_LEFT => self.left_click,
            BTN_RIGHT => self.right_click,
            BTN_MIDDLE => self.middle_click,
            BTN_SIDE => self.side,
            BTN_EXTRA => self.extra,
            _ => Control::Unbound,
        }
    }

    /// The control that a wheel notch in this direction is mapped to.
    pub fn for_wheel(&self, dir: i32) -> (r: Control)
        ensures
            r == wheel_control(*self, dir),
    {
        if dir > 0 {
            self.wheel_up
        } else {
            self.wheel_down
        }
    }
}

/// Everything that is remembered between messages and ticks.
pub struct Session {
    /// Input drives the pad; while it does not, the pad is held at rest.
    pub active: bool,
    pub pad: PadInput,
    /// The gamepad's buttons, by code.
    pub pad_keys: HashMap<u16, i32>,
    /// The mouse's buttons: the number of a control -> pressed.
    pub mouse_ctrls: HashMap<u8, bool>,
    /// Pending wheel taps: the control, and the last tick in which it is held.
    pub taps: Vec<(Control, u64)>,
    pub tick_count: u64,
    pub ticks_since_input: u64,
    /// What the virtual pad was last sent.
    pub last_sent: Desired,
    pub buttons: Buttons,
    pub tap_ticks: u64,
    pub boost_hold_ticks: u64,
}

/// A session as mathematical values.
#[verifier::ext_equal]
pub struct SessionState {
    pub active: bool,
    pub pad: PadInput,
    pub pad_keys: Map<u16, i32>,
    pub mouse_ctrls: Map<u8, bool>,
    pub taps: Seq<(Control, u64)>,
    pub tick_count: int,
    pub ticks_since_input: int,
    pub last_sent: PadState,
    pub buttons: Buttons,
    pub tap_ticks: int,
    pub boost_hold_ticks: int,
}

impl View for Session {
    type V = SessionState;

    open spec fn view(&self) -> SessionState {
        SessionState {
            active: self.active,
            pad: self.pad,
            pad_keys: self.pad_keys@,
            mouse_ctrls: self.mouse_ctrls@,
            taps: self.taps@,
            tick_count: self.tick_count as int,
            ticks_since_input: self.ticks_since_input as int,
            last_sent: self.last_sent@,
            buttons: self.buttons,
            tap_ticks: self.tap_ticks as int,
            boost_hold_ticks: self.boost_hold_ticks as int,
        }
    }
}

/// What the gamepad reports after one of its axes has moved. The right stick is not part of
/// it: the mouse owns aim.
pub open spec fn after_axis(pad: PadInput, code: u16, value: i32) -> PadInput {
    if code == ABS_X {
        PadInput { lx: value, ..pad }
    } else if code == ABS_Y {
        PadInput { ly: value, ..pad }
    } else if code == ABS_Z {
        PadInput { lt: value, ..pad }
    } else if code == ABS_RZ {
        PadInput { rt: value, ..pad }
    } else if code == ABS_HAT0X {
        PadInput { hatx: value, ..pad }
    } else if code == ABS_HAT0Y {
        PadInput { haty: value, ..pad }
    } else {
        pad
    }
}

/// The session after a message.
pub open spec fn after_msg(s: SessionState, msg: Msg) -> SessionState {
    match msg {
        Msg::MouseRel(_, _) => s,
        Msg::MouseButton(code, pressed) => {
            let c = button_control(s.buttons, code);
            if c == Control::Unbound {
                s
            } else {
                SessionState { mouse_ctrls: s.mouse_ctrls.insert(control_code(c), pressed), ..s }
            }
        },
        Msg::MouseWheel(dir) => {
            let c = wheel_control(s.buttons, dir);
            if c == Control::Unbound {
                s
            } else {
                SessionState { taps: s.taps.push((c, (s.tick_count + s.tap_ticks) as u64)), ..s }
            }
        },
        Msg::PadAbs(code, value) => SessionState { pad: after_axis(s.pad, code, value), ..s },
        Msg::PadKey(code, value) => {
            if declared(code) {
                SessionState { pad_keys: s.pad_keys.insert(code, value), ..s }
            } else {
                s
            }
        },
        Msg::TogglePs => SessionState { active: !s.active, ..s },
    }
}

/// What a message does to the aim integration.
pub open spec fn aim_effect(s: SessionState, msg: Msg) -> AimEffect {
    match msg {
        Msg::MouseRel(dx, dy) => AimEffect::Accumulate(dx, dy),
        Msg::TogglePs => AimEffect::Reset(!s.active),
        _ => AimEffect::Keep,
    }
}

/// The tick in which a tap would be released is a number that the tick counter can reach.
pub open spec fn tap_fits(s: SessionState, msg: Msg) -> bool {
    msg matches Msg::MouseWheel(dir) ==> wheel_control(s.buttons, dir) != Control::Unbound
        ==> s.tick_count + s.tap_ticks <= u64::MAX
}

/// The session once the next tick has begun: time has moved on, and taps whose time is over
/// are gone.
pub open spec fn after_tick(s: SessionState, moved: bool) -> SessionState {
    let now = s.tick_count + 1;
    SessionState {
        tick_count: now,
        ticks_since_input: if moved {
            0
        } else if s.ticks_since_input >= u64::MAX {
            u64::MAX as int
        } else {
            s.ticks_since_input + 1
        },
        taps: live(s.taps, now),
        ..s
    }
}

/// The taps whose last tick has not passed.
pub open spec fn live(taps: Seq<(Control, u64)>, now: int) -> Seq<(Control, u64)> {
    taps.filter(|t: (Control, u64)| t.1 >= now)
}

/// A tap is still live exactly where it was there and its last tick has not passed.
pub(crate) proof fn lemma_live(taps: Seq<(Control, u64)>, now: int)
    ensures
        forall|t: (Control, u64)| #[trigger]
            live(taps, now).contains(t) <==> taps.contains(t) && t.1 >= now,
    decreases taps.len(),
{
    reveal(Seq::filter);
    if taps.len() > 0 {
        let shorter = taps.drop_last();
        lemma_live(shorter, now);
        assert(taps == shorter.push(taps.last()));
        lemma_push_contains(shorter, taps.last());
        lemma_push_contains(live(shorter, now), taps.last());
    }
}

/// The pad shows what the inputs make of it, for some walk over the held controls.
pub open spec fn shows_inputs(shown: PadState, s: SessionState, rx: i32, ry: i32) -> bool {
    exists|order: Seq<u8>| #[trigger]
        is_walk(order, s.mouse_ctrls) && shown == desired_state(
            rx,
            ry,
            s.pad,
            s.pad_keys,
            active_controls(order, s.taps),
        )
}

/// With the aim at these right-stick values a tick may end by sending these events, after which
/// the pad shows this state: the inputs while the session is active, and the pad at rest while it
/// is not.
pub open spec fn may_send(
    s: SessionState,
    rx: i32,
    ry: i32,
    events: Seq<PadEvent>,
    shown: PadState,
) -> bool {
    &&& s.active ==> shows_inputs(shown, s, rx, ry)
    &&& !s.active ==> shown == neutral()
    &&& is_diff(events, s.last_sent, shown)
}

/// What holds of every session, whatever has happened in it.
pub open spec fn valid(s: SessionState) -> bool {
    &&& s.tick_count >= 0
    &&& s.tap_ticks >= 1
    &&& s.boost_hold_ticks >= 1
    &&& forall|k: u16| #[trigger] s.pad_keys.contains_key(k) ==> declared(k)
    &&& forall|c: u8| #[trigger] s.mouse_ctrls.contains_key(c) ==> 1 <= c <= 14
    &&& forall|i: int|
        0 <= i < s.taps.len() ==> (#[trigger] s.taps[i]).0 != Control::Unbound && s.tick_count
            <= s.taps[i].1 <= s.tick_count + s.tap_ticks
    &&& s.last_sent.keys.dom().subset_of(neutral().keys.dom())
    &&& s.last_sent.abs.dom().subset_of(neutral().abs.dom())
}

/// What came out of waiting for a message.
#[derive(Debug, Clone, Copy, PartialEq, Eq, Structural)]
pub enum Received {
    Message(Msg),
    /// The next tick is due.
    Timeout,
    /// No reader is left.
    Disconnected,
}

/// What the main loop does next.
#[derive(Debug, Clone, Copy, PartialEq, Eq, Structural)]
pub enum Next {
    /// Perform the effect, and wait for more messages.
    Wait(AimEffect),
    Tick,
    Stop,
}

impl Session {
    /// A session at its start: active, nothing pressed, nothing sent yet, no recent movement.
    pub fn new(buttons: Buttons, timing: Timing) -> (r: Session)
        requires
            timing.tap_ticks >= 1,
            timing.boost_hold_ticks >= 1,
        ensures
            valid(r@),
            r@ == (SessionState {
                active: true,
                pad: PadInput {
                    lx: crate::pad::STICK_CENTER,
                    ly: crate::pad::STICK_CENTER,
                    lt: 0,
                    rt: 0,
                    hatx: 0,
                    haty: 0,
                },
                pad_keys: Map::empty(),
                mouse_ctrls: Map::empty(),
                taps: Seq::empty(),
                tick_count: 0,
                ticks_since_input: timing.boost_hold_ticks as int,
                last_sent: PadState { keys: Map::empty(), abs: Map::empty() },
                buttons,
                tap_ticks: timing.tap_ticks as int,
                boost_hold_ticks: timing.boost_hold_ticks as int,
            }),
    {
        Session {
            active: true,
            pad: PadInput::default(),
            pad_keys: HashMap::new(),
            mouse_ctrls: HashMap::new(),
            taps: Vec::new(),
            tick_count: 0,
            ticks_since_input: timing.boost_hold_ticks,  // start as "not moving"
            last_sent: Desired::default(),
            buttons,
            tap_ticks: timing.tap_ticks,
            boost_hold_ticks: timing.boost_hold_ticks,
        }
    }

    /// Take in a message from a reader.
    pub fn apply_msg(&mut self, msg: Msg) -> (r: AimEffect)
        requires
            tap_fits(old(self)@, msg),
        ensures
            final(self)@ == after_msg(old(self)@, msg),
            r == aim_effect(old(self)@, msg),
            valid(old(self)@) ==> valid(final(self)@),
    {
        match msg {
            Msg::MouseRel(dx, dy) => AimEffect::Accumulate(dx, dy),
            Msg::MouseButton(code, pressed) => {
                let ctrl = self.buttons.for_button(code);
                if ctrl != Control::Unbound {
                    self.mouse_ctrls.insert(control_to_u8(ctrl), pressed);
                }
                AimEffect::Keep
            },
            Msg::MouseWheel(dir) => {
                let ctrl = self.buttons.for_wheel(dir);
                if ctrl != Control::Unbound {
                    self.taps.push((ctrl, self.tick_count + self.tap_ticks));
                }
                AimEffect::Keep
            },
            Msg::PadAbs(code, val) => {
                match code {
                    ABS_X => {
                        self.pad.lx = val;
                    },
                    ABS_Y => {
                        self.pad.ly = val;
                    },
                    ABS_Z => {
                        self.pad.lt = val;
                    },
                    ABS_RZ => {
                        self.pad.rt = val;
                    },
                    ABS_HAT0X => {
                        self.pad.hatx = val;
                    },
                    ABS_HAT0Y => {
                        self.pad.haty = val;
                    },
                    // The gamepad's right stick is ignored: the mouse owns aim.
                    _ => {},
                }
                AimEffect::Keep
            },
            Msg::PadKey(code, val) => {
                // Only buttons that the virtual pad has are forwarded, so that no other one
                // can get stuck in its state.
                if is_declared(code) {
                    self.pad_keys.insert(code, val);
                }
                AimEffect::Keep
            },
            Msg::TogglePs => {
                self.active = !self.active;
                AimEffect::Reset(self.active)
            },
        }
    }

    /// Act on what came out of waiting for a message.
    pub fn on_received(&mut self, received: Received) -> (r: Next)
        requires
            received matches Received::Message(msg) ==> tap_fits(old(self)@, msg),
        ensures
            match received {
                Received::Message(msg) => {
                    &&& final(self)@ == after_msg(old(self)@, msg)
                    &&& r == Next::Wait(aim_effect(old(self)@, msg))
                },
                Received::Timeout => final(self)@ == old(self)@ && r == Next::Tick,
                Received::Disconnected => final(self)@ == old(self)@ && r == Next::Stop,
            },
            r is Wait <==> received is Message,
            r is Tick <==> received is Timeout,
            r is Stop <==> received is Disconnected,
            valid(old(self)@) ==> valid(final(self)@),
    {
        match received {
            Received::Message(msg) => Next::Wait(self.apply_msg(msg)),
            Received::Timeout => Next::Tick,
            Received::Disconnected => Next::Stop,
        }
    }

    /// Begin the next tick. `moved` tells whether the mouse has moved since the last one.
    pub fn begin_tick(&mut self, moved: bool)
        requires
            old(self).tick_count < u64::MAX,
        ensures
            final(self)@ == after_tick(old(self)@, moved),
            valid(old(self)@) ==> valid(final(self)@),
    {
        self.tick_count = self.tick_count + 1;
        if moved {
            self.ticks_since_input = 0;
        } else {
            self.ticks_since_input = self.ticks_since_input.saturating_add(1);
        }
        // Expire wheel taps (>= so a tap lasts the full tap_ticks, also where that is 1).
        let mut left: Vec<(Control, u64)> = Vec::new();
        let ghost now = self.tick_count as int;
        for i in 0..self.taps.len()
            invariant
                self.tick_count == now,
                self.taps@ == old(self).taps@,
                left@ == live(self.taps@.take(i as int), now),
        {
            let tap = self.taps[i];
            proof {
                reveal(Seq::filter);
                assert(self.taps@.take(i + 1).drop_last() == self.taps@.take(i as int));
            }
            if tap.1 >= self.tick_count {
                left.push(tap);
            }
        }
        assert(self.taps@.take(self.taps@.len() as int) == self.taps@);
        self.taps = left;
        proof {
            lemma_after_tick_is_valid(old(self)@, moved);
        }
    }

    /// End the tick: settle what the virtual pad should show, with the mouse's aim on its right
    /// stick, and give the events that bring it there.
    pub fn finish_tick(&mut self, rx: i32, ry: i32) -> (r: Vec<PadEvent>)
        ensures
            may_send(old(self)@, rx, ry, r@, final(self)@.last_sent),
            final(self)@ == (SessionState {
                last_sent: final(self)@.last_sent,
                ..old(self)@
            }),
            valid(old(self)@) ==> valid(final(self)@) && replay(old(self)@.last_sent, r@)
                == final(self)@.last_sent,
    {
        let desired = if self.active {
            build_desired(rx, ry, &self.pad, &self.pad_keys, &self.mouse_ctrls, &self.taps)
        } else {
            neutral_state()
        };
        let events = emit_diff(&self.last_sent, &desired);
        proof {
            lemma_send_is_seen(self@, rx, ry, events@, desired@);
        }
        self.last_sent = desired;
        events
    }
}

/// A pad that is sent the events shows the state that they are for, and the session stays valid.
pub(crate) proof fn lemma_send_is_seen(
    s: SessionState,
    rx: i32,
    ry: i32,
    events: Seq<PadEvent>,
    shown: PadState,
)
    requires
        may_send(s, rx, ry, events, shown),
    ensures
        valid(s) ==> valid(SessionState { last_sent: shown, ..s }),
        valid(s) ==> replay(s.last_sent, events) == shown,
{
    diff_reaches_desired(events, s.last_sent, shown);
    if valid(s) && s.active {
        lemma_shown_has_all_codes(shown, s, rx, ry);
    }
}

/// What a valid session shows has a value for every button and axis, and for no other.
proof fn lemma_shown_has_all_codes(shown: PadState, s: SessionState, rx: i32, ry: i32)
    requires
        valid(s),
        shows_inputs(shown, s, rx, ry),
    ensures
        shown.keys.dom() == neutral().keys.dom(),
        shown.abs.dom() == neutral().abs.dom(),
{
    let order = choose|order: Seq<u8>| #[trigger]
        is_walk(order, s.mouse_ctrls) && shown == desired_state(
            rx,
            ry,
            s.pad,
            s.pad_keys,
            active_controls(order, s.taps),
        );
    desired_has_all_codes(rx, ry, s.pad, s.pad_keys, active_controls(order, s.taps));
}

/// A tick keeps a session valid.
pub(crate) proof fn lemma_after_tick_is_valid(s: SessionState, moved: bool)
    ensures
        valid(s) ==> valid(after_tick(s, moved)),
{
    let t = after_tick(s, moved);
    lemma_live(s.taps, t.tick_count);
    if valid(s) {
        assert forall|i: int| 0 <= i < t.taps.len() implies (#[trigger] t.taps[i]).0
            != Control::Unbound && t.tick_count <= t.taps[i].1 <= t.tick_count + t.tap_ticks by {
            assert(t.taps.contains(t.taps[i]));
            assert(s.taps.contains(t.taps[i]));
            let j = s.taps.index_of(t.taps[i]);
            assert(s.taps[j] == t.taps[i]);
        }
    }
}

} // verus!
