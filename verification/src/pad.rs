//! The virtual pad: what each control drives, the state that the pad should be in, and the
//! events that bring it there.

use crate::codes::{
    declared, ABS_HAT0X, ABS_HAT0Y, ABS_RX, ABS_RY, ABS_RZ, ABS_X, ABS_Y, ABS_Z, BTN_EAST,
    BTN_NORTH, BTN_SOUTH, BTN_THUMBL, BTN_THUMBR, BTN_TL, BTN_TR, BTN_WEST, DECLARED_KEYS,
};
use crate::config::{
    code_round_trip, control_at, control_code, control_from_u8, control_round_trip, Control,
};
use std::collections::HashMap;
use vstd::prelude::*;

verus! {

pub const STICK_MIN: i32 = 0;

pub const STICK_MAX: i32 = 255;

pub const STICK_CENTER: i32 = 128;

pub const TRIGGER_MAX: i32 = 255;

/// The right stick (mouse aim) uses a 16-bit symmetric range for fine granularity.
pub const RSTICK_MAX: i32 = 32767;

/// Where a mapped mouse input lands on the virtual pad.
#[derive(Debug, Clone, Copy, PartialEq, Eq, Structural)]
pub enum Target {
    Key(u16),
    /// Analog trigger pressed to full: true = right trigger (R2), false = left trigger (L2).
    Trigger(bool),
    /// A hat axis override: (is_x_axis, value in {-1,0,1}).
    Hat(bool, i32),
}

/// What a control drives on the virtual pad.
pub open spec fn target_of(c: Control) -> Option<Target> {
    match c {
        Control::Unbound => None,
        Control::R2 => Some(Target::Trigger(true)),
        Control::L2 => Some(Target::Trigger(false)),
        Control::R1 => Some(Target::Key(BTN_TR)),
        Control::L1 => Some(Target::Key(BTN_TL)),
        Control::Cross => Some(Target::Key(BTN_SOUTH)),
        Control::Circle => Some(Target::Key(BTN_EAST)),
        Control::Square => Some(Target::Key(BTN_WEST)),
        Control::Triangle => Some(Target::Key(BTN_NORTH)),
        Control::L3 => Some(Target::Key(BTN_THUMBL)),
        Control::R3 => Some(Target::Key(BTN_THUMBR)),
        Control::DpadUp => Some(Target::Hat(false, (-1) as i32)),
        Control::DpadDown => Some(Target::Hat(false, 1)),
        Control::DpadLeft => Some(Target::Hat(true, (-1) as i32)),
        Control::DpadRight => Some(Target::Hat(true, 1)),
    }
}

/// What a control drives on the virtual pad; nothing for `Control::Unbound`.
pub fn control_target(c: Control) -> (r: Option<Target>)
    ensures
        r == target_of(c),
{
    match c {
        Control::Unbound => None,
        Control::R2 => Some(Target::Trigger(true)),
        Control::L2 => Some(Target::Trigger(false)),
        Control::R1 => Some(Target::Key(BTN_TR)),
        Control::L1 => Some(Target::Key(BTN_TL)),
        Control::Cross => Some(Target::Key(BTN_SOUTH)),
        Control::Circle => Some(Target::Key(BTN_EAST)),
        Control::Square => Some(Target::Key(BTN_WEST)),
        Control::Triangle => Some(Target::Key(BTN_NORTH)),
        Control::L3 => Some(Target::Key(BTN_THUMBL)),
        Control::R3 => Some(Target::Key(BTN_THUMBR)),
        Control::DpadUp => Some(Target::Hat(false, -1)),
        Control::DpadDown => Some(Target::Hat(false, 1)),
        Control::DpadLeft => Some(Target::Hat(true, -1)),
        Control::DpadRight => Some(Target::Hat(true, 1)),
    }
}

/// Desired virtual-pad state: the value of every button and of every axis, by code.
pub struct Desired {
    pub keys: HashMap<u16, i32>,
    pub abs: HashMap<u16, i32>,
}

/// The state of a pad as two maps from code to value.
#[verifier::ext_equal]
pub struct PadState {
    pub keys: Map<u16, i32>,
    pub abs: Map<u16, i32>,
}

impl View for Desired {
    type V = PadState;

    open spec fn view(&self) -> PadState {
        PadState { keys: self.keys@, abs: self.abs@ }
    }
}

impl Default for Desired {
    fn default() -> (r: Self)
        ensures
            r@.keys == Map::<u16, i32>::empty(),
            r@.abs == Map::<u16, i32>::empty(),
    {
        Desired { keys: HashMap::new(), abs: HashMap::new() }
    }
}

/// The eight axes of the virtual pad with these values.
pub open spec fn axes(
    x: i32,
    y: i32,
    rx: i32,
    ry: i32,
    z: i32,
    rz: i32,
    hatx: i32,
    haty: i32,
) -> Map<u16, i32> {
    map![
        ABS_X => x,
        ABS_Y => y,
        ABS_RX => rx,
        ABS_RY => ry,
        ABS_Z => z,
        ABS_RZ => rz,
        ABS_HAT0X => hatx,
        ABS_HAT0Y => haty,
    ]
}

/// The pad at rest: sticks centered, triggers and hat released, every button up.
pub open spec fn neutral() -> PadState {
    PadState {
        keys: Map::new(|k: u16| declared(k), |k: u16| 0i32),
        abs: axes(STICK_CENTER, STICK_CENTER, 0, 0, 0, 0, 0, 0),
    }
}

/// What a sequence has after one more element.
pub(crate) proof fn lemma_push_contains<T>(s: Seq<T>, x: T)
    ensures
        forall|y: T| #[trigger] s.push(x).contains(y) <==> (s.contains(y) || y == x),
{
    s.lemma_push_to_set_commute(x);
    assert forall|y: T| #[trigger] s.push(x).contains(y) <==> (s.contains(y) || y == x) by {
        assert(s.push(x).to_set().contains(y) <==> s.to_set().insert(x).contains(y));
    }
}

/// One element more is taken: the element at the place that was reached.
proof fn lemma_take_one_more<T>(s: Seq<T>, i: int)
    requires
        0 <= i < s.len(),
    ensures
        s.take(i + 1) == s.take(i).push(s[i]),
        forall|x: T| #[trigger]
            s.take(i + 1).contains(x) <==> (s.take(i).contains(x) || x == s[i]),
{
    assert(s.take(i + 1) == s.take(i).push(s[i]));
    lemma_push_contains(s.take(i), s[i]);
}

/// The pad at rest, so that nothing stays held while paused.
pub fn neutral_state() -> (r: Desired)
    ensures
        r@ == neutral(),
{
    let mut d = Desired::default();
    d.abs.insert(ABS_X, STICK_CENTER);
    d.abs.insert(ABS_Y, STICK_CENTER);
    d.abs.insert(ABS_RX, 0);  // the right stick is symmetric, its center is 0
    d.abs.insert(ABS_RY, 0);
    d.abs.insert(ABS_Z, 0);
    d.abs.insert(ABS_RZ, 0);
    d.abs.insert(ABS_HAT0X, 0);
    d.abs.insert(ABS_HAT0Y, 0);
    let keys = DECLARED_KEYS;
    for i in 0..keys.len()
        invariant
            keys@ == DECLARED_KEYS@,
            d.abs@ == axes(STICK_CENTER, STICK_CENTER, 0, 0, 0, 0, 0, 0),
            d.keys@ == Map::new(|k: u16| keys@.take(i as int).contains(k), |k: u16| 0i32),
    {
        d.keys.insert(keys[i], 0);
        proof {
            lemma_take_one_more(keys@, i as int);
        }
        assert(d.keys@ =~= Map::new(|k: u16| keys@.take(i + 1).contains(k), |k: u16| 0i32));
    }
    assert(keys@.take(10) == keys@);
    d
}

/// What the gamepad reports, but for its buttons: left stick, triggers and hat.
#[derive(Debug, Clone, Copy, PartialEq, Eq, Structural)]
pub struct PadInput {
    pub lx: i32,
    pub ly: i32,
    pub lt: i32,
    pub rt: i32,
    pub hatx: i32,
    pub haty: i32,
}

impl Default for PadInput {
    /// The gamepad at rest.
    fn default() -> (r: Self)
        ensures
            r == (PadInput {
                lx: STICK_CENTER,
                ly: STICK_CENTER,
                lt: 0,
                rt: 0,
                hatx: 0,
                haty: 0,
            }),
    {
        PadInput { lx: STICK_CENTER, ly: STICK_CENTER, lt: 0, rt: 0, hatx: 0, haty: 0 }
    }
}

/// A right-stick value moved into the range of the axis.
pub open spec fn rstick(v: i32) -> i32 {
    if v > RSTICK_MAX {
        RSTICK_MAX
    } else if v < -RSTICK_MAX {
        (-RSTICK_MAX) as i32
    } else {
        v
    }
}

/// Map a right-stick fraction, already scaled by `RSTICK_MAX` and rounded, into the symmetric
/// axis range (center 0).
pub fn frac_to_rstick(rounded: i32) -> (r: i32)
    ensures
        r == rstick(rounded),
        -RSTICK_MAX <= r <= RSTICK_MAX,
{
    if rounded > RSTICK_MAX {
        RSTICK_MAX
    } else if rounded < -RSTICK_MAX {
        -RSTICK_MAX
    } else {
        rounded
    }
}

/// The gamepad holds this button down.
pub open spec fn pad_holds(pad_keys: Map<u16, i32>, k: u16) -> bool {
    pad_keys.contains_key(k) && pad_keys[k] != 0
}

/// One of the active controls drives this target.
pub open spec fn drives(active: Seq<Control>, t: Target) -> bool {
    exists|i: int| 0 <= i < active.len() && #[trigger] target_of(active[i]) == Some(t)
}

/// The virtual buttons: down where the gamepad holds them or an active control presses them.
/// Every declared button has a value, so that releases are seen.
pub open spec fn button_state(pad_keys: Map<u16, i32>, active: Seq<Control>) -> Map<u16, i32> {
    Map::new(
        |k: u16| declared(k) || pad_holds(pad_keys, k),
        |k: u16|
            if pad_holds(pad_keys, k) || drives(active, Target::Key(k)) {
                1i32
            } else {
                0i32
            },
    )
}

/// A trigger: full where an active control presses it, else as the gamepad has it.
pub open spec fn trigger_state(active: Seq<Control>, right: bool, pad_value: i32) -> i32 {
    if drives(active, Target::Trigger(right)) {
        TRIGGER_MAX
    } else {
        pad_value
    }
}

/// A hat axis: as the last active control on that axis sets it, else as the gamepad has it.
pub open spec fn hat_state(active: Seq<Control>, is_x: bool, pad_value: i32) -> i32
    decreases active.len(),
{
    if active.len() == 0 {
        pad_value
    } else {
        match target_of(active.last()) {
            Some(Target::Hat(x, v)) if x == is_x => v,
            _ => hat_state(active.drop_last(), is_x, pad_value),
        }
    }
}

/// The state of the virtual pad, given the right-stick values, what the gamepad reports and
/// holds, and the active controls in the order in which they are laid over it.
pub open spec fn desired_state(
    rx: i32,
    ry: i32,
    pad: PadInput,
    pad_keys: Map<u16, i32>,
    active: Seq<Control>,
) -> PadState {
    PadState {
        keys: button_state(pad_keys, active),
        abs: axes(
            pad.lx,
            pad.ly,
            rstick(rx),
            rstick(ry),
            trigger_state(active, false, pad.lt),
            trigger_state(active, true, pad.rt),
            hat_state(active, true, pad.hatx),
            hat_state(active, false, pad.haty),
        ),
    }
}

/// What one more active control adds.
proof fn lemma_one_more_control(active: Seq<Control>, c: Control)
    ensures
        forall|t: Target| #[trigger]
            drives(active.push(c), t) <==> (drives(active, t) || target_of(c) == Some(t)),
        forall|is_x: bool, base: i32| #[trigger]
            hat_state(active.push(c), is_x, base) == (match target_of(c) {
                Some(Target::Hat(x, v)) if x == is_x => v,
                _ => hat_state(active, is_x, base),
            }),
{
    let more = active.push(c);
    assert(more.drop_last() == active);
    assert forall|t: Target| #[trigger] drives(more, t) <==> (drives(active, t) || target_of(c)
        == Some(t)) by {
        if drives(active, t) {
            let i = choose|i: int| 0 <= i < active.len() && target_of(active[i]) == Some(t);
            assert(target_of(more[i]) == Some(t));
        }
        if target_of(c) == Some(t) {
            assert(target_of(more[active.len() as int]) == Some(t));
        }
        if drives(more, t) {
            let i = choose|i: int| 0 <= i < more.len() && target_of(more[i]) == Some(t);
            if i < active.len() {
                assert(target_of(active[i]) == Some(t));
            }
        }
    }
}

/// The buttons that the gamepad holds, each with the value 1.
fn pad_held_keys(pad_keys: &HashMap<u16, i32>) -> (r: HashMap<u16, i32>)
    ensures
        r@ == Map::new(|k: u16| pad_holds(pad_keys@, k), |k: u16| 1i32),
{
    let mut keys: HashMap<u16, i32> = HashMap::new();
    for (code, val) in it: pad_keys.iter()
        invariant
            forall|k: u16| #[trigger]
                keys@.contains_key(k) <==> exists|j: int|
                    0 <= j < it.index() && *(#[trigger] it.seq()[j]).0 == k && *it.seq()[j].1 != 0,
            forall|k: u16| #[trigger] keys@.contains_key(k) ==> keys@[k] == 1,
    {
        if *val != 0 {
            keys.insert(*code, 1);
        }
    }
    keys
}

/// Every button that a control drives is a button that the virtual pad has.
pub proof fn control_buttons_are_declared(c: Control, k: u16)
    requires
        target_of(c) == Some(Target::Key(k)),
    ensures
        declared(k),
{
    let d = DECLARED_KEYS@;
    assert(d[0] == BTN_SOUTH && d[1] == BTN_EAST && d[2] == BTN_NORTH && d[3] == BTN_WEST && d[4]
        == BTN_TL && d[5] == BTN_TR && d[8] == BTN_THUMBL && d[9] == BTN_THUMBR);
}

/// The state of the virtual pad with these controls active, laid over what the gamepad does
/// in the given order.
pub fn overlay(
    rx: i32,
    ry: i32,
    pad: &PadInput,
    pad_keys: &HashMap<u16, i32>,
    active: &Vec<Control>,
) -> (r: Desired)
    ensures
        r@ == desired_state(rx, ry, *pad, pad_keys@, active@),
        active@.contains(Control::L2) ==> r@.abs[ABS_Z] == 255,
        active@.contains(Control::R2) ==> r@.abs[ABS_RZ] == 255,
{
    let mut d = Desired::default();

    // Left stick from the gamepad, right stick from the mouse.
    d.abs.insert(ABS_X, pad.lx);
    d.abs.insert(ABS_Y, pad.ly);
    d.abs.insert(ABS_RX, frac_to_rstick(rx));
    d.abs.insert(ABS_RY, frac_to_rstick(ry));

    let mut lt: i32 = pad.lt;
    let mut rt: i32 = pad.rt;
    let mut hatx: i32 = pad.hatx;
    let mut haty: i32 = pad.haty;

    // Start virtual buttons from whatever the gamepad is holding.
    d.keys = pad_held_keys(pad_keys);

    // Overlay the active controls onto buttons / triggers / hat.
    for i in 0..active.len()
        invariant
            d.abs@ == map![
                ABS_X => pad.lx,
                ABS_Y => pad.ly,
                ABS_RX => rstick(rx),
                ABS_RY => rstick(ry),
            ],
            d.keys@ == Map::new(
                |k: u16|
                    pad_holds(pad_keys@, k) || drives(active@.take(i as int), Target::Key(k)),
                |k: u16| 1i32,
            ),
            lt == trigger_state(active@.take(i as int), false, pad.lt),
            rt == trigger_state(active@.take(i as int), true, pad.rt),
            hatx == hat_state(active@.take(i as int), true, pad.hatx),
            haty == hat_state(active@.take(i as int), false, pad.haty),
    {
        proof {
            lemma_take_one_more(active@, i as int);
            lemma_one_more_control(active@.take(i as int), active@[i as int]);
        }
        match control_target(active[i]) {
            Some(Target::Key(k)) => {
                d.keys.insert(k, 1);
            },
            Some(Target::Trigger(right)) => {
                if right {
                    rt = TRIGGER_MAX;
                } else {
                    lt = TRIGGER_MAX;
                }
            },
            Some(Target::Hat(is_x, v)) => {
                if is_x {
                    hatx = v;
                } else {
                    haty = v;
                }
            },
            None => {},
        }
        assert(d.keys@ =~= Map::new(
            |k: u16| pad_holds(pad_keys@, k) || drives(active@.take(i + 1), Target::Key(k)),
            |k: u16| 1i32,
        ));
    }
    assert(active@.take(active@.len() as int) == active@);

    d.abs.insert(ABS_Z, lt);
    d.abs.insert(ABS_RZ, rt);
    d.abs.insert(ABS_HAT0X, hatx);
    d.abs.insert(ABS_HAT0Y, haty);
    let ghost full = desired_state(rx, ry, *pad, pad_keys@, active@);
    assert(d.abs@ =~= full.abs);

    // Ensure every declared button has an explicit value so releases are emitted.
    let ghost pressed = d.keys@;
    let keys = DECLARED_KEYS;
    for i in 0..keys.len()
        invariant
            keys@ == DECLARED_KEYS@,
            d.abs@ == full.abs,
            d.keys@ == Map::new(
                |k: u16| pressed.contains_key(k) || keys@.take(i as int).contains(k),
                |k: u16|
                    if pressed.contains_key(k) {
                        1i32
                    } else {
                        0i32
                    },
            ),
    {
        proof {
            lemma_take_one_more(keys@, i as int);
        }
        if !d.keys.contains_key(&keys[i]) {
            d.keys.insert(keys[i], 0);
        }
        assert(d.keys@ =~= Map::new(
            |k: u16| pressed.contains_key(k) || keys@.take(i + 1).contains(k),
            |k: u16|
                if pressed.contains_key(k) {
                    1i32
                } else {
                    0i32
                },
        ));
    }
    assert(keys@.take(10) == keys@);
    proof {
        assert forall|k: u16| drives(active@, Target::Key(k)) implies declared(k) by {
            let i = choose|i: int|
                0 <= i < active@.len() && target_of(active@[i]) == Some(Target::Key(k));
            control_buttons_are_declared(active@[i], k);
        }
    }
    assert(d.keys@ =~= full.keys);
    proof {
        triggers_are_shown(rx, ry, *pad, pad_keys@, active@);
    }
    d
}

/// The numbers of the controls that are held, each once, in some order: what a walk over the
/// map of held controls may come across.
pub open spec fn is_walk(order: Seq<u8>, held: Map<u8, bool>) -> bool {
    &&& order.no_duplicates()
    &&& forall|c: u8| #[trigger] order.contains(c) <==> (held.contains_key(c) && held[c])
}

/// The numbers of the held controls, in the order in which the map is walked.
pub fn held_codes(held: &HashMap<u8, bool>) -> (r: Vec<u8>)
    ensures
        is_walk(r@, held@),
{
    let mut codes: Vec<u8> = Vec::new();
    for (code, pressed) in it: held.iter()
        invariant
            codes@.no_duplicates(),
            it.seq().no_duplicates(),
            forall|j: int|
                0 <= j < it.seq().len() ==> held@.contains_key(*(#[trigger] it.seq()[j]).0)
                    && held@[*it.seq()[j].0] == *it.seq()[j].1,
            forall|k: u8| #[trigger]
                codes@.contains(k) <==> exists|j: int|
                    0 <= j < it.index() && *(#[trigger] it.seq()[j]).0 == k && *it.seq()[j].1,
    {
        let ghost before = codes@;
        let ghost at = it.index();
        if *pressed {
            codes.push(*code);
        }
        proof {
            assert(it.seq()[at] == (code, pressed));
            if before.contains(*code) {
                let j = choose|j: int|
                    0 <= j < at && *(#[trigger] it.seq()[j]).0 == *code && *it.seq()[j].1;
                assert(it.seq()[j] == it.seq()[at]);
            }
            if *pressed {
                lemma_push_contains(before, *code);
            }
        }
    }
    codes
}

/// The controls that are active: the held ones in the given order, then the taps in theirs.
pub open spec fn active_controls(order: Seq<u8>, taps: Seq<(Control, u64)>) -> Seq<Control> {
    order.map_values(|c: u8| control_at(c)) + taps.map_values(|t: (Control, u64)| t.0)
}

/// The state of the virtual pad: the gamepad's left stick, triggers, hat and buttons, the
/// mouse's right stick, and over them the held mouse controls and the wheel taps.
///
/// The held controls are laid over in the order in which their map is walked, which is not
/// fixed; the taps come after them, the latest last.
pub fn build_desired(
    rx: i32,
    ry: i32,
    pad: &PadInput,
    pad_keys: &HashMap<u16, i32>,
    held: &HashMap<u8, bool>,
    taps: &Vec<(Control, u64)>,
) -> (r: Desired)
    ensures
        exists|order: Seq<u8>| #[trigger]
            is_walk(order, held@) && r@ == desired_state(
                rx,
                ry,
                *pad,
                pad_keys@,
                active_controls(order, taps@),
            ),
{
    let codes = held_codes(held);
    let mut active: Vec<Control> = Vec::new();
    for i in 0..codes.len()
        invariant
            active@ == codes@.take(i as int).map_values(|c: u8| control_at(c)),
    {
        active.push(control_from_u8(codes[i]));
        assert(active@ =~= codes@.take(i + 1).map_values(|c: u8| control_at(c)));
    }
    assert(codes@.take(codes@.len() as int) == codes@);
    for i in 0..taps.len()
        invariant
            active@ == active_controls(codes@, taps@.take(i as int)),
    {
        active.push(taps[i].0);
        assert(active@ =~= active_controls(codes@, taps@.take(i + 1)));
    }
    assert(taps@.take(taps@.len() as int) == taps@);
    overlay(rx, ry, pad, pad_keys, &active)
}

/// A change of the virtual pad: a button or an axis, by code, and its new value.
#[derive(Debug, Clone, Copy, PartialEq, Eq, Structural)]
pub enum PadEvent {
    Key(u16, i32),
    Abs(u16, i32),
}

/// The current map has this value under this code, and the last one did not.
pub open spec fn changed(
    last: Map<u16, i32>,
    cur: Map<u16, i32>,
    code: u16,
    value: i32,
) -> bool {
    &&& cur.contains_key(code)
    &&& cur[code] == value
    &&& !(last.contains_key(code) && last[code] == value)
}

/// The event has to be sent to bring the pad from the last state to the current one.
pub open spec fn event_due(last: PadState, cur: PadState, e: PadEvent) -> bool {
    match e {
        PadEvent::Key(code, value) => changed(last.keys, cur.keys, code, value),
        PadEvent::Abs(code, value) => changed(last.abs, cur.abs, code, value),
    }
}

/// These are the events that are due, each once, those of buttons before those of axes.
pub open spec fn is_diff(events: Seq<PadEvent>, last: PadState, cur: PadState) -> bool {
    &&& events.no_duplicates()
    &&& forall|e: PadEvent| #[trigger] events.contains(e) <==> event_due(last, cur, e)
    &&& forall|i: int, j: int|
        0 <= i < j < events.len() && #[trigger] events[j] is Key ==> #[trigger] events[i] is Key
}

/// The entries of the current map that the last one does not have, each once.
fn changed_entries(last: &HashMap<u16, i32>, cur: &HashMap<u16, i32>) -> (r: Vec<(u16, i32)>)
    ensures
        r@.no_duplicates(),
        forall|p: (u16, i32)| #[trigger] r@.contains(p) <==> changed(last@, cur@, p.0, p.1),
{
    let mut entries: Vec<(u16, i32)> = Vec::new();
    for (code, val) in it: cur.iter()
        invariant
            entries@.no_duplicates(),
            it.seq().no_duplicates(),
            forall|j: int|
                0 <= j < it.seq().len() ==> cur@.contains_key(*(#[trigger] it.seq()[j]).0)
                    && cur@[*it.seq()[j].0] == *it.seq()[j].1,
            forall|p: (u16, i32)| #[trigger]
                entries@.contains(p) <==> changed(last@, cur@, p.0, p.1) && exists|j: int|
                    0 <= j < it.index() && *(#[trigger] it.seq()[j]).0 == p.0 && *it.seq()[j].1
                        == p.1,
    {
        let ghost before = entries@;
        let ghost at = it.index();
        let ghost entry = (*code, *val);
        let same = match last.get(code) {
            Some(v) => *v == *val,
            None => false,
        };
        if !same {
            entries.push((*code, *val));
        }
        proof {
            assert(it.seq()[at] == (code, val));
            if before.contains(entry) {
                let j = choose|j: int|
                    0 <= j < at && *(#[trigger] it.seq()[j]).0 == entry.0 && *it.seq()[j].1
                        == entry.1;
                assert(it.seq()[j] == it.seq()[at]);
            }
            if !same {
                lemma_push_contains(before, entry);
            }
        }
    }
    entries
}

/// The events that bring the virtual pad from the state that was last sent to the current one.
pub fn emit_diff(last: &Desired, cur: &Desired) -> (r: Vec<PadEvent>)
    ensures
        is_diff(r@, last@, cur@),
{
    let keys = changed_entries(&last.keys, &cur.keys);
    let abs = changed_entries(&last.abs, &cur.abs);
    let mut events: Vec<PadEvent> = Vec::new();
    for i in 0..keys.len()
        invariant
            events@ == keys@.take(i as int).map_values(|p: (u16, i32)| PadEvent::Key(p.0, p.1)),
    {
        events.push(PadEvent::Key(keys[i].0, keys[i].1));
        assert(events@ =~= keys@.take(i + 1).map_values(
            |p: (u16, i32)| PadEvent::Key(p.0, p.1),
        ));
    }
    assert(keys@.take(keys@.len() as int) == keys@);
    let ghost first = keys@.map_values(|p: (u16, i32)| PadEvent::Key(p.0, p.1));
    for i in 0..abs.len()
        invariant
            events@ == first + abs@.take(i as int).map_values(
                |p: (u16, i32)| PadEvent::Abs(p.0, p.1),
            ),
    {
        events.push(PadEvent::Abs(abs[i].0, abs[i].1));
        assert(events@ =~= first + abs@.take(i + 1).map_values(
            |p: (u16, i32)| PadEvent::Abs(p.0, p.1),
        ));
    }
    assert(abs@.take(abs@.len() as int) == abs@);
    proof {
        let second = abs@.map_values(|p: (u16, i32)| PadEvent::Abs(p.0, p.1));
        assert(events@ == first + second);
        assert forall|e: PadEvent| #[trigger] events@.contains(e) <==> event_due(
            last@,
            cur@,
            e,
        ) by {
            match e {
                PadEvent::Key(code, value) => {
                    if events@.contains(e) {
                        let i = events@.index_of(e);
                        assert(keys@[i] == (code, value));
                        assert(keys@.contains((code, value)));
                    }
                    if event_due(last@, cur@, e) {
                        assert(keys@.contains((code, value)));
                        let i = keys@.index_of((code, value));
                        assert(events@[i] == e);
                    }
                },
                PadEvent::Abs(code, value) => {
                    if events@.contains(e) {
                        let i = events@.index_of(e);
                        assert(abs@[i - first.len()] == (code, value));
                        assert(abs@.contains((code, value)));
                    }
                    if event_due(last@, cur@, e) {
                        assert(abs@.contains((code, value)));
                        let i = abs@.index_of((code, value));
                        assert(events@[first.len() + i] == e);
                    }
                },
            }
        }
    }
    events
}

/// The state of a pad after it has been sent these events.
pub open spec fn replay(start: PadState, events: Seq<PadEvent>) -> PadState
    decreases events.len(),
{
    if events.len() == 0 {
        start
    } else {
        let before = replay(start, events.drop_last());
        match events.last() {
            PadEvent::Key(code, value) => PadState {
                keys: before.keys.insert(code, value),
                abs: before.abs,
            },
            PadEvent::Abs(code, value) => PadState {
                keys: before.keys,
                abs: before.abs.insert(code, value),
            },
        }
    }
}

/// What a pad has under a code after events that all agree on that code.
proof fn lemma_replay_at(start: PadState, events: Seq<PadEvent>, code: u16, key: i32, abs: i32)
    requires
        forall|i: int|
            0 <= i < events.len() ==> (#[trigger] events[i] matches PadEvent::Key(c, v) ==> c
                == code ==> v == key),
        forall|i: int|
            0 <= i < events.len() ==> (#[trigger] events[i] matches PadEvent::Abs(c, v) ==> c
                == code ==> v == abs),
    ensures
        replay(start, events).keys.get(code) == if events.contains(PadEvent::Key(code, key)) {
            Some(key)
        } else {
            start.keys.get(code)
        },
        replay(start, events).abs.get(code) == if events.contains(PadEvent::Abs(code, abs)) {
            Some(abs)
        } else {
            start.abs.get(code)
        },
    decreases events.len(),
{
    if events.len() > 0 {
        let shorter = events.drop_last();
        assert forall|i: int| 0 <= i < shorter.len() implies shorter[i] == #[trigger] events[i] by {
        }
        lemma_replay_at(start, shorter, code, key, abs);
        assert(events == shorter.push(events.last()));
        lemma_push_contains(shorter, events.last());
    }
}

/// A pad in the last state that is sent the difference has every value of the current state;
/// what the current state does not mention stays.
pub proof fn diff_reaches_desired(events: Seq<PadEvent>, last: PadState, cur: PadState)
    requires
        is_diff(events, last, cur),
    ensures
        replay(last, events) == (PadState {
            keys: last.keys.union_prefer_right(cur.keys),
            abs: last.abs.union_prefer_right(cur.abs),
        }),
        last.keys.dom().subset_of(cur.keys.dom()) && last.abs.dom().subset_of(cur.abs.dom())
            ==> replay(last, events) == cur,
{
    let after = replay(last, events);
    let keys = last.keys.union_prefer_right(cur.keys);
    let abs = last.abs.union_prefer_right(cur.abs);
    assert forall|code: u16| #[trigger] after.keys.get(code) == keys.get(code) && after.abs.get(
        code,
    ) == abs.get(code) by {
        assert forall|i: int| 0 <= i < events.len() implies event_due(
            last,
            cur,
            #[trigger] events[i],
        ) by {
            assert(events.contains(events[i]));
        }
        lemma_replay_at(last, events, code, cur.keys[code], cur.abs[code]);
        assert(events.contains(PadEvent::Key(code, cur.keys[code])) <==> event_due(
            last,
            cur,
            PadEvent::Key(code, cur.keys[code]),
        ));
        assert(events.contains(PadEvent::Abs(code, cur.abs[code])) <==> event_due(
            last,
            cur,
            PadEvent::Abs(code, cur.abs[code]),
        ));
    }
    assert forall|code: u16| after.keys.contains_key(code) == keys.contains_key(code) by {
        assert(after.keys.get(code) == keys.get(code));
    }
    assert forall|code: u16| #[trigger] after.keys.contains_key(code) implies after.keys[code]
        == keys[code] by {
        assert(after.keys.get(code) == keys.get(code));
    }
    assert(after.keys =~= keys);
    assert forall|code: u16| after.abs.contains_key(code) == abs.contains_key(code) by {
        assert(after.keys.get(code) == keys.get(code));
    }
    assert forall|code: u16| #[trigger] after.abs.contains_key(code) implies after.abs[code]
        == abs[code] by {
        assert(after.keys.get(code) == keys.get(code));
    }
    assert(after.abs =~= abs);
    if last.keys.dom().subset_of(cur.keys.dom()) && last.abs.dom().subset_of(cur.abs.dom()) {
        assert(keys =~= cur.keys);
        assert(abs =~= cur.abs);
    }
}

/// Sending two batches one after the other is sending all their events: what the pad shows
/// after any number of batches is what the last of them brought it to.
pub proof fn batches_add_up(start: PadState, first: Seq<PadEvent>, second: Seq<PadEvent>)
    ensures
        replay(start, first + second) == replay(replay(start, first), second),
    decreases second.len(),
{
    if second.len() == 0 {
        assert(first + second == first);
    } else {
        assert((first + second).drop_last() == first + second.drop_last());
        batches_add_up(start, first, second.drop_last());
    }
}

/// Nothing is sent exactly where the pad already has every value.
pub proof fn no_change_no_events(events: Seq<PadEvent>, last: PadState, cur: PadState)
    requires
        is_diff(events, last, cur),
    ensures
        events.len() == 0 <==> cur.keys.submap_of(last.keys) && cur.abs.submap_of(last.abs),
        last == cur ==> events.len() == 0,
{
    if events.len() > 0 {
        assert(events.contains(events[0]));
        assert(event_due(last, cur, events[0]));
        match events[0] {
            PadEvent::Key(code, value) => {
                assert(cur.keys.dom().contains(code));
            },
            PadEvent::Abs(code, value) => {
                assert(cur.abs.dom().contains(code));
            },
        }
    } else {
        assert forall|code: u16| #[trigger]
            cur.keys.dom().contains(code) implies last.keys.dom().contains(code)
            && last.keys[code] == cur.keys[code] by {
            assert(!events.contains(PadEvent::Key(code, cur.keys[code])));
        }
        assert forall|code: u16| #[trigger]
            cur.abs.dom().contains(code) implies last.abs.dom().contains(code)
            && last.abs[code] == cur.abs[code] by {
            assert(!events.contains(PadEvent::Abs(code, cur.abs[code])));
        }
    }
}

/// Whatever is held and tapped, the right stick stays in its range, every button is up or
/// down, and the hat and the triggers are as the gamepad has them or as a control sets them.
pub proof fn desired_in_range(
    rx: i32,
    ry: i32,
    pad: PadInput,
    pad_keys: Map<u16, i32>,
    active: Seq<Control>,
)
    ensures
        ({
            let d = desired_state(rx, ry, pad, pad_keys, active);
            &&& -RSTICK_MAX <= d.abs[ABS_RX] <= RSTICK_MAX
            &&& -RSTICK_MAX <= d.abs[ABS_RY] <= RSTICK_MAX
            &&& d.abs[ABS_Z] == pad.lt || d.abs[ABS_Z] == TRIGGER_MAX
            &&& d.abs[ABS_RZ] == pad.rt || d.abs[ABS_RZ] == TRIGGER_MAX
            &&& d.abs[ABS_HAT0X] == pad.hatx || d.abs[ABS_HAT0X] == -1 || d.abs[ABS_HAT0X] == 1
            &&& d.abs[ABS_HAT0Y] == pad.haty || d.abs[ABS_HAT0Y] == -1 || d.abs[ABS_HAT0Y] == 1
            &&& forall|k: u16| #[trigger]
                d.keys.contains_key(k) ==> d.keys[k] == 0 || d.keys[k] == 1
        }),
{
    lemma_hat_range(active, true, pad.hatx);
    lemma_hat_range(active, false, pad.haty);
}

/// A hat axis has the gamepad's value or a full deflection.
proof fn lemma_hat_range(active: Seq<Control>, is_x: bool, base: i32)
    ensures
        hat_state(active, is_x, base) == base || hat_state(active, is_x, base) == -1 || hat_state(
            active,
            is_x,
            base,
        ) == 1,
    decreases active.len(),
{
    if active.len() > 0 {
        lemma_hat_range(active.drop_last(), is_x, base);
    }
}

/// Some control of the sequence moves this hat axis.
pub open spec fn moves_hat(active: Seq<Control>, is_x: bool) -> bool {
    exists|i: int|
        0 <= i < active.len() && (#[trigger] target_of(active[i]) matches Some(Target::Hat(x, _))
            && x == is_x)
}

/// Where all controls that move a hat axis move it the same way, the axis goes that way.
proof fn lemma_hat_agrees(active: Seq<Control>, is_x: bool, base: i32, v: i32)
    requires
        forall|i: int|
            0 <= i < active.len() ==> (#[trigger] target_of(active[i]) matches Some(
                Target::Hat(x, w),
            ) ==> x == is_x ==> w == v),
    ensures
        hat_state(active, is_x, base) == if moves_hat(active, is_x) {
            v
        } else {
            base
        },
    decreases active.len(),
{
    if active.len() > 0 {
        let shorter = active.drop_last();
        assert forall|i: int| 0 <= i < shorter.len() implies shorter[i] == #[trigger] active[i] by {
        }
        lemma_hat_agrees(shorter, is_x, base, v);
        if moves_hat(shorter, is_x) {
            let i = choose|i: int|
                0 <= i < shorter.len() && (#[trigger] target_of(shorter[i]) matches Some(
                    Target::Hat(x, _),
                ) && x == is_x);
            assert(target_of(active[i]) == target_of(shorter[i]));
        }
        if moves_hat(active, is_x) {
            let i = choose|i: int|
                0 <= i < active.len() && (#[trigger] target_of(active[i]) matches Some(
                    Target::Hat(x, _),
                ) && x == is_x);
            if i < shorter.len() {
                assert(target_of(shorter[i]) == target_of(active[i]));
            }
        }
        assert(target_of(active[active.len() - 1]) == target_of(active.last()));
    }
}

/// A hat axis after more controls: theirs where they move it, else as it was before them.
proof fn lemma_hat_append(first: Seq<Control>, more: Seq<Control>, is_x: bool, base: i32)
    ensures
        hat_state(first + more, is_x, base) == hat_state(
            more,
            is_x,
            hat_state(first, is_x, base),
        ),
    decreases more.len(),
{
    if more.len() == 0 {
        assert(first + more == first);
    } else {
        assert((first + more).drop_last() == first + more.drop_last());
        lemma_hat_append(first, more.drop_last(), is_x, base);
    }
}

/// The map of held controls holds this one.
pub open spec fn holds(held: Map<u8, bool>, c: Control) -> bool {
    held.contains_key(control_code(c)) && held[control_code(c)]
}

/// What the held controls do to a hat axis, where not both of its directions are held.
proof fn lemma_walk_hat(order: Seq<u8>, held: Map<u8, bool>, is_x: bool, base: i32)
    requires
        is_walk(order, held),
        is_x ==> !(holds(held, Control::DpadLeft) && holds(held, Control::DpadRight)),
        !is_x ==> !(holds(held, Control::DpadUp) && holds(held, Control::DpadDown)),
    ensures
        hat_state(order.map_values(|c: u8| control_at(c)), is_x, base) == hat_from_held(
            held,
            is_x,
            base,
        ),
{
    let controls = order.map_values(|c: u8| control_at(c));
    let back = if is_x {
        Control::DpadLeft
    } else {
        Control::DpadUp
    };
    let forth = if is_x {
        Control::DpadRight
    } else {
        Control::DpadDown
    };
    let v: i32 = if holds(held, forth) {
        1
    } else {
        (-1) as i32
    };
    assert forall|i: int| 0 <= i < controls.len() implies holds(held, #[trigger] controls[i])
        || controls[i] == Control::Unbound by {
        assert(order.contains(order[i]));
        code_round_trip(order[i]);
    }
    lemma_hat_agrees(controls, is_x, base, v);
    if holds(held, back) {
        let i = order.index_of(control_code(back));
        assert(order.contains(control_code(back)));
        control_round_trip(back);
        assert(target_of(controls[i]) == target_of(back));
    }
    if holds(held, forth) {
        let i = order.index_of(control_code(forth));
        assert(order.contains(control_code(forth)));
        control_round_trip(forth);
        assert(target_of(controls[i]) == target_of(forth));
    }
}

/// A hat axis under the held controls alone, where not both of its directions are held.
pub open spec fn hat_from_held(held: Map<u8, bool>, is_x: bool, base: i32) -> i32 {
    if holds(
        held,
        if is_x {
            Control::DpadLeft
        } else {
            Control::DpadUp
        },
    ) {
        (-1) as i32
    } else if holds(
        held,
        if is_x {
            Control::DpadRight
        } else {
            Control::DpadDown
        },
    ) {
        1i32
    } else {
        base
    }
}

/// Which targets are driven does not depend on the order of the walk.
proof fn lemma_walk_drives(
    a: Seq<u8>,
    b: Seq<u8>,
    held: Map<u8, bool>,
    taps: Seq<(Control, u64)>,
    t: Target,
)
    requires
        is_walk(a, held),
        is_walk(b, held),
        drives(active_controls(a, taps), t),
    ensures
        drives(active_controls(b, taps), t),
{
    let ca = active_controls(a, taps);
    let cb = active_controls(b, taps);
    let i = choose|i: int| 0 <= i < ca.len() && #[trigger] target_of(ca[i]) == Some(t);
    if i < a.len() {
        assert(a.contains(a[i]));
        assert(b.contains(a[i]));
        let j = b.index_of(a[i]);
        assert(target_of(cb[j]) == Some(t));
    } else {
        assert(target_of(cb[i - a.len() + b.len()]) == Some(t));
    }
}

/// The order in which the held controls are walked shows in nothing but a hat axis both of
/// whose directions are held: where no axis is in that state, the pad's state is one and the
/// same for every walk.
pub proof fn walk_order_shows_only_on_opposed_hat(
    a: Seq<u8>,
    b: Seq<u8>,
    held: Map<u8, bool>,
    rx: i32,
    ry: i32,
    pad: PadInput,
    pad_keys: Map<u16, i32>,
    taps: Seq<(Control, u64)>,
)
    requires
        is_walk(a, held),
        is_walk(b, held),
    ensures
        ({
            let da = desired_state(rx, ry, pad, pad_keys, active_controls(a, taps));
            let db = desired_state(rx, ry, pad, pad_keys, active_controls(b, taps));
            &&& da.keys == db.keys
            &&& da.abs.remove(ABS_HAT0X).remove(ABS_HAT0Y) == db.abs.remove(ABS_HAT0X).remove(
                ABS_HAT0Y,
            )
            &&& !(holds(held, Control::DpadLeft) && holds(held, Control::DpadRight))
                ==> da.abs[ABS_HAT0X] == db.abs[ABS_HAT0X]
            &&& !(holds(held, Control::DpadUp) && holds(held, Control::DpadDown))
                ==> da.abs[ABS_HAT0Y] == db.abs[ABS_HAT0Y]
        }),
{
    let ca = active_controls(a, taps);
    let cb = active_controls(b, taps);
    assert forall|t: Target| #[trigger] drives(ca, t) == drives(cb, t) by {
        if drives(ca, t) {
            lemma_walk_drives(a, b, held, taps, t);
        }
        if drives(cb, t) {
            lemma_walk_drives(b, a, held, taps, t);
        }
    }
    let da = desired_state(rx, ry, pad, pad_keys, ca);
    let db = desired_state(rx, ry, pad, pad_keys, cb);
    assert(da.keys =~= db.keys);
    let wa = a.map_values(|c: u8| control_at(c));
    let wb = b.map_values(|c: u8| control_at(c));
    let tail = taps.map_values(|t: (Control, u64)| t.0);
    lemma_hat_append(wa, tail, true, pad.hatx);
    lemma_hat_append(wb, tail, true, pad.hatx);
    lemma_hat_append(wa, tail, false, pad.haty);
    lemma_hat_append(wb, tail, false, pad.haty);
    if !(holds(held, Control::DpadLeft) && holds(held, Control::DpadRight)) {
        lemma_walk_hat(a, held, true, pad.hatx);
        lemma_walk_hat(b, held, true, pad.hatx);
    }
    if !(holds(held, Control::DpadUp) && holds(held, Control::DpadDown)) {
        lemma_walk_hat(a, held, false, pad.haty);
        lemma_walk_hat(b, held, false, pad.haty);
    }
    assert(da.abs.remove(ABS_HAT0X).remove(ABS_HAT0Y) =~= db.abs.remove(ABS_HAT0X).remove(
        ABS_HAT0Y,
    ));
}

/// While the gamepad's buttons are buttons of the virtual pad, every state that is desired
/// has a value for exactly the declared buttons and the eight axes, as the pad at rest has.
pub proof fn desired_has_all_codes(
    rx: i32,
    ry: i32,
    pad: PadInput,
    pad_keys: Map<u16, i32>,
    active: Seq<Control>,
)
    requires
        forall|k: u16| #[trigger] pad_keys.contains_key(k) ==> declared(k),
    ensures
        desired_state(rx, ry, pad, pad_keys, active).keys.dom() == neutral().keys.dom(),
        desired_state(rx, ry, pad, pad_keys, active).abs.dom() == neutral().abs.dom(),
{
    let d = desired_state(rx, ry, pad, pad_keys, active);
    assert(d.keys.dom() =~= neutral().keys.dom());
    assert(d.abs.dom() =~= neutral().abs.dom());
}

/// A control is driven by a sequence exactly where its target is that of one of its controls;
/// no two controls have the same one.
proof fn lemma_drives_by_control(active: Seq<Control>, c: Control)
    requires
        c != Control::Unbound,
    ensures
        drives(active, target_of(c).unwrap()) <==> active.contains(c),
{
    let t = target_of(c).unwrap();
    if drives(active, t) {
        let i = choose|i: int| 0 <= i < active.len() && #[trigger] target_of(active[i]) == Some(t);
        assert(active[i] == c);
    }
    if active.contains(c) {
        let i = active.index_of(c);
        assert(target_of(active[i]) == Some(t));
    }
}

/// The left stick is the gamepad's. The right stick is the mouse's, up to the end of its range on
/// either side.
pub proof fn sticks_are_shown(
    rx: i32,
    ry: i32,
    pad: PadInput,
    pad_keys: Map<u16, i32>,
    active: Seq<Control>,
)
    ensures
        ({
            let d = desired_state(rx, ry, pad, pad_keys, active).abs;
            &&& d[ABS_X] == pad.lx && d[ABS_Y] == pad.ly
            &&& -32767 <= rx <= 32767 ==> d[ABS_RX] == rx
            &&& -32767 <= ry <= 32767 ==> d[ABS_RY] == ry
            &&& rx > 32767 ==> d[ABS_RX] == 32767
            &&& ry > 32767 ==> d[ABS_RY] == 32767
            &&& rx < -32767 ==> d[ABS_RX] == -32767
            &&& ry < -32767 ==> d[ABS_RY] == -32767
        }),
{
}

/// A trigger is pressed to full where its control is active, L2 for the left one and R2 for the
/// right one, and is as the gamepad has it elsewhere.
pub proof fn triggers_are_shown(
    rx: i32,
    ry: i32,
    pad: PadInput,
    pad_keys: Map<u16, i32>,
    active: Seq<Control>,
)
    ensures
        ({
            let d = desired_state(rx, ry, pad, pad_keys, active).abs;
            &&& active.contains(Control::L2) ==> d[ABS_Z] == 255
            &&& !active.contains(Control::L2) ==> d[ABS_Z] == pad.lt
            &&& active.contains(Control::R2) ==> d[ABS_RZ] == 255
            &&& !active.contains(Control::R2) ==> d[ABS_RZ] == pad.rt
        }),
{
    lemma_drives_by_control(active, Control::L2);
    lemma_drives_by_control(active, Control::R2);
}

/// A button is down where the gamepad reports it with any value but 0 or its control is active,
/// and up elsewhere; the buttons that no control stands for are the gamepad's alone. There is a
/// value for every declared button, and for any other that the gamepad holds.
pub proof fn buttons_are_shown(
    rx: i32,
    ry: i32,
    pad: PadInput,
    pad_keys: Map<u16, i32>,
    active: Seq<Control>,
    k: u16,
)
    ensures
        ({
            let d = desired_state(rx, ry, pad, pad_keys, active).keys;
            let held = pad_keys.contains_key(k) && pad_keys[k] != 0;
            let pressed = match k {
                0x130u16 => active.contains(Control::Cross),
                0x131u16 => active.contains(Control::Circle),
                0x133u16 => active.contains(Control::Triangle),
                0x134u16 => active.contains(Control::Square),
                0x136u16 => active.contains(Control::L1),
                0x137u16 => active.contains(Control::R1),
                0x13du16 => active.contains(Control::L3),
                0x13eu16 => active.contains(Control::R3),
                _ => false,
            };
            &&& d.contains_key(k) <==> declared(k) || held
            &&& d.contains_key(k) ==> d[k] == if held || pressed {
                1int
            } else {
                0
            }
        }),
{
    lemma_drives_by_control(active, Control::Cross);
    lemma_drives_by_control(active, Control::Circle);
    lemma_drives_by_control(active, Control::Triangle);
    lemma_drives_by_control(active, Control::Square);
    lemma_drives_by_control(active, Control::L1);
    lemma_drives_by_control(active, Control::R1);
    lemma_drives_by_control(active, Control::L3);
    lemma_drives_by_control(active, Control::R3);
}

/// The last control that moves a hat axis decides it.
proof fn lemma_last_on_hat(active: Seq<Control>, is_x: bool, base: i32, i: int, v: i32)
    requires
        0 <= i < active.len(),
        target_of(active[i]) == Some(Target::Hat(is_x, v)),
        forall|j: int|
            i < j < active.len() ==> !(#[trigger] target_of(active[j]) matches Some(
                Target::Hat(x, _),
            ) && x == is_x),
    ensures
        hat_state(active, is_x, base) == v,
    decreases active.len(),
{
    if i < active.len() - 1 {
        let shorter = active.drop_last();
        assert(!(target_of(active[active.len() - 1]) matches Some(Target::Hat(x, _)) && x
            == is_x));
        assert forall|j: int| i < j < shorter.len() implies !(#[trigger] target_of(
            shorter[j],
        ) matches Some(Target::Hat(x, _)) && x == is_x) by {
            assert(shorter[j] == active[j]);
        }
        lemma_last_on_hat(shorter, is_x, base, i, v);
    }
}

/// The vertical hat axis goes up or down as the last of the active controls for it says, and is
/// the gamepad's where there is none.
pub proof fn vertical_hat_is_shown(
    rx: i32,
    ry: i32,
    pad: PadInput,
    pad_keys: Map<u16, i32>,
    active: Seq<Control>,
    i: int,
)
    ensures
        ({
            let d = desired_state(rx, ry, pad, pad_keys, active).abs;
            &&& !active.contains(Control::DpadUp) && !active.contains(Control::DpadDown)
                ==> d[ABS_HAT0Y] == pad.haty
            &&& 0 <= i < active.len() && (forall|j: int|
                i < j < active.len() ==> #[trigger] active[j] != Control::DpadUp && active[j]
                    != Control::DpadDown) ==> {
                &&& active[i] == Control::DpadUp ==> d[ABS_HAT0Y] == -1
                &&& active[i] == Control::DpadDown ==> d[ABS_HAT0Y] == 1
            }
        }),
{
    if !active.contains(Control::DpadUp) && !active.contains(Control::DpadDown) {
        assert forall|j: int| 0 <= j < active.len() implies !(#[trigger] target_of(
            active[j],
        ) matches Some(Target::Hat(x, _)) && !x) by {
            assert(active.contains(active[j]));
        }
        lemma_hat_agrees(active, false, pad.haty, 0);
    }
    if 0 <= i < active.len() && forall|j: int|
        i < j < active.len() ==> #[trigger] active[j] != Control::DpadUp && active[j]
            != Control::DpadDown {
        assert forall|j: int| i < j < active.len() implies !(#[trigger] target_of(
            active[j],
        ) matches Some(Target::Hat(x, _)) && !x) by {
            assert(active[j] != Control::DpadUp);
        }
        if active[i] == Control::DpadUp {
            lemma_last_on_hat(active, false, pad.haty, i, (-1) as i32);
        }
        if active[i] == Control::DpadDown {
            lemma_last_on_hat(active, false, pad.haty, i, 1);
        }
    }
}

/// The horizontal hat axis goes left or right as the last of the active controls for it says, and
/// is the gamepad's where there is none.
pub proof fn horizontal_hat_is_shown(
    rx: i32,
    ry: i32,
    pad: PadInput,
    pad_keys: Map<u16, i32>,
    active: Seq<Control>,
    i: int,
)
    ensures
        ({
            let d = desired_state(rx, ry, pad, pad_keys, active).abs;
            &&& !active.contains(Control::DpadLeft) && !active.contains(Control::DpadRight)
                ==> d[ABS_HAT0X] == pad.hatx
            &&& 0 <= i < active.len() && (forall|j: int|
                i < j < active.len() ==> #[trigger] active[j] != Control::DpadLeft && active[j]
                    != Control::DpadRight) ==> {
                &&& active[i] == Control::DpadLeft ==> d[ABS_HAT0X] == -1
                &&& active[i] == Control::DpadRight ==> d[ABS_HAT0X] == 1
            }
        }),
{
    if !active.contains(Control::DpadLeft) && !active.contains(Control::DpadRight) {
        assert forall|j: int| 0 <= j < active.len() implies !(#[trigger] target_of(
            active[j],
        ) matches Some(Target::Hat(x, _)) && x) by {
            assert(active.contains(active[j]));
        }
        lemma_hat_agrees(active, true, pad.hatx, 0);
    }
    if 0 <= i < active.len() && forall|j: int|
        i < j < active.len() ==> #[trigger] active[j] != Control::DpadLeft && active[j]
            != Control::DpadRight {
        assert forall|j: int| i < j < active.len() implies !(#[trigger] target_of(
            active[j],
        ) matches Some(Target::Hat(x, _)) && x) by {
            assert(active[j] != Control::DpadLeft);
        }
        if active[i] == Control::DpadLeft {
            lemma_last_on_hat(active, true, pad.hatx, i, (-1) as i32);
        }
        if active[i] == Control::DpadRight {
            lemma_last_on_hat(active, true, pad.hatx, i, 1);
        }
    }
}

/// The pad at rest has the left stick at 128, everything else at 0, and every button up; the
/// states that are desired have the same eight axes.
pub proof fn rest_has_these_values(
    code: u16,
    rx: i32,
    ry: i32,
    pad: PadInput,
    pad_keys: Map<u16, i32>,
    active: Seq<Control>,
)
    ensures
        neutral().keys.contains_key(code) <==> declared(code),
        neutral().keys.contains_key(code) ==> neutral().keys[code] == 0,
        neutral().abs.contains_key(code) <==> code <= 0x05 || code == 0x10 || code == 0x11,
        neutral().abs.contains_key(code) ==> neutral().abs[code] == if code == 0x00 || code
            == 0x01 {
            128int
        } else {
            0
        },
        desired_state(rx, ry, pad, pad_keys, active).abs.contains_key(code) <==> code <= 0x05
            || code == 0x10 || code == 0x11,
{
}

/// A walk meets every control that is down exactly once, and none that is up or was never
/// pressed; the active controls are those, and after them the taps from the oldest to the latest.
pub proof fn walks_meet_what_is_down(
    order: Seq<u8>,
    held: Map<u8, bool>,
    taps: Seq<(Control, u64)>,
    c: u8,
    i: int,
    j: int,
)
    requires
        is_walk(order, held),
    ensures
        held.contains_key(c) && held[c] <==> order.contains(c),
        0 <= i < j < order.len() ==> order[i] != order[j],
        active_controls(order, taps).len() == order.len() + taps.len(),
        0 <= i < order.len() ==> active_controls(order, taps)[i] == control_at(order[i]),
        0 <= i < taps.len() ==> active_controls(order, taps)[order.len() + i] == taps[i].0,
{
}

/// An event is sent for exactly what has another value than it had, or had none: with the new
/// value, once for each button and each axis, the buttons first.
pub proof fn events_tell_what_changed(
    events: Seq<PadEvent>,
    last: PadState,
    cur: PadState,
    code: u16,
    value: i32,
    i: int,
    j: int,
)
    requires
        is_diff(events, last, cur),
    ensures
        events.contains(PadEvent::Key(code, value)) <==> cur.keys.contains_key(code)
            && cur.keys[code] == value && (last.keys.contains_key(code) ==> last.keys[code]
            != value),
        events.contains(PadEvent::Abs(code, value)) <==> cur.abs.contains_key(code)
            && cur.abs[code] == value && (last.abs.contains_key(code) ==> last.abs[code] != value),
        0 <= i < j < events.len() ==> match (events[i], events[j]) {
            (PadEvent::Key(c, _), PadEvent::Key(d, _)) => c != d,
            (PadEvent::Abs(c, _), PadEvent::Abs(d, _)) => c != d,
            (PadEvent::Key(_, _), PadEvent::Abs(_, _)) => true,
            (PadEvent::Abs(_, _), PadEvent::Key(_, _)) => false,
        },
{
    if 0 <= i < j < events.len() {
        assert(events.contains(events[i]));
        assert(events.contains(events[j]));
        assert(event_due(last, cur, events[i]));
        assert(event_due(last, cur, events[j]));
        assert(events[i] != events[j]);
    }
}

/// A pad that is sent an event has that value there, and everything else as before.
pub proof fn events_set_one_value(start: PadState, code: u16, value: i32)
    ensures
        replay(start, Seq::empty()) == start,
        replay(start, seq![PadEvent::Key(code, value)]) == (PadState {
            keys: start.keys.insert(code, value),
            abs: start.abs,
        }),
        replay(start, seq![PadEvent::Abs(code, value)]) == (PadState {
            keys: start.keys,
            abs: start.abs.insert(code, value),
        }),
{
    reveal_with_fuel(replay, 2);
    assert(seq![PadEvent::Key(code, value)].drop_last() == Seq::<PadEvent>::empty());
    assert(seq![PadEvent::Abs(code, value)].drop_last() == Seq::<PadEvent>::empty());
}

} // verus!
