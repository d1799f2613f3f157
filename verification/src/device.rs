//! The devices: which of them are used, and what the virtual pad announces.

use crate::codes::{
    declared, ABS_HAT0X, ABS_HAT0Y, ABS_RX, ABS_RY, ABS_RZ, ABS_X, ABS_Y, ABS_Z, BTN_LEFT,
    BTN_SOUTH, DECLARED_KEYS, REL_X,
};
use crate::config::Control;
use crate::pad::{
    desired_in_range, desired_state, neutral, PadInput, RSTICK_MAX, STICK_CENTER, STICK_MAX,
    STICK_MIN, TRIGGER_MAX,
};
use evdev::{AttributeSet, AttributeSetRef, KeyCode, RelativeAxisCode};
use vstd::prelude::*;

verus! {

/// `evdev::KeyCode`, the code of a button or key.
#[verifier::external_type_specification]
#[verifier::external_body]
pub struct ExKeyCode(KeyCode);

/// `evdev::RelativeAxisCode`, the code of a relative axis.
#[verifier::external_type_specification]
#[verifier::external_body]
pub struct ExRelativeAxisCode(RelativeAxisCode);

/// `evdev::AttributeSetRef`, the codes of one kind that a device supports.
#[verifier::external_type_specification]
#[verifier::external_body]
#[verifier::reject_recursive_types(T)]
pub struct ExAttributeSetRef<T>(AttributeSetRef<T>);

/// The codes that a set of buttons and keys has.
pub uninterp spec fn key_codes(keys: &AttributeSetRef<KeyCode>) -> Set<u16>;

/// The codes that a set of relative axes has.
pub uninterp spec fn rel_codes(rels: &AttributeSetRef<RelativeAxisCode>) -> Set<u16>;

/// Calls `evdev::AttributeSetRef::contains` on a set of buttons and keys. Claimed of it: the
/// answer is whether the set has the code; a code beyond the set's last one is not in it.
#[verifier::external_body]
fn has_key(keys: &AttributeSetRef<KeyCode>, code: u16) -> (r: bool)
    ensures
        r == key_codes(keys).contains(code),
{
    keys.contains(KeyCode(code))
}

/// Calls `evdev::AttributeSetRef::contains` on a set of relative axes. Claimed of it: the
/// answer is whether the set has the code; a code beyond the set's last one is not in it.
#[verifier::external_body]
fn has_rel(rels: &AttributeSetRef<RelativeAxisCode>, code: u16) -> (r: bool)
    ensures
        r == rel_codes(rels).contains(code),
{
    rels.contains(RelativeAxisCode(code))
}

/// The text has the other one somewhere in it.
pub open spec fn occurs_in(needle: Seq<char>, text: Seq<char>) -> bool {
    exists|i: int|
        0 <= i <= text.len() - needle.len() && #[trigger] text.subrange(i, i + needle.len())
            == needle
}

/// Calls `str::contains` with a string pattern. Claimed of it: the answer is whether the
/// pattern occurs as a substring.
#[verifier::external_body]
fn text_contains(text: &str, needle: &str) -> (r: bool)
    ensures
        r == occurs_in(needle@, text@),
{
    text.contains(needle)
}

/// A device that could be used: its name and what it supports. A kind of input that a device
/// does not have at all is absent.
pub struct Candidate<'a> {
    pub name: &'a str,
    pub keys: Option<&'a AttributeSetRef<KeyCode>>,
    pub relative_axes: Option<&'a AttributeSetRef<RelativeAxisCode>>,
}

impl<'a> Candidate<'a> {
    /// The device has this button.
    pub open spec fn has_button(self, code: u16) -> bool {
        self.keys matches Some(k) && key_codes(k).contains(code)
    }

    /// The device has this relative axis.
    pub open spec fn has_relative_axis(self, code: u16) -> bool {
        self.relative_axes matches Some(r) && rel_codes(r).contains(code)
    }

    /// The device is what is looked for: it has the name in its own, and a gamepad has the
    /// south button, a mouse the x axis and the left button.
    pub open spec fn suits(self, name_substr: Seq<char>, want_pad: bool) -> bool {
        &&& occurs_in(name_substr, self.name@)
        &&& if want_pad {
            self.has_button(BTN_SOUTH)
        } else {
            self.has_relative_axis(REL_X) && self.has_button(BTN_LEFT)
        }
    }

    /// Whether the device has this button.
    fn check_button(&self, code: u16) -> (r: bool)
        ensures
            r == self.has_button(code),
    {
        match self.keys {
            Some(k) => has_key(k, code),
            None => false,
        }
    }

    /// Whether the device has this relative axis.
    fn check_relative_axis(&self, code: u16) -> (r: bool)
        ensures
            r == self.has_relative_axis(code),
    {
        match self.relative_axes {
            Some(rels) => has_rel(rels, code),
            None => false,
        }
    }

    /// Whether the device is what is looked for.
    pub fn matches_device(&self, name_substr: &str, want_pad: bool) -> (r: bool)
        ensures
            r == self.suits(name_substr@, want_pad),
    {
        if !text_contains(self.name, name_substr) {
            false
        } else if want_pad {
            self.check_button(BTN_SOUTH)
        } else {
            self.check_relative_axis(REL_X) && self.check_button(BTN_LEFT)
        }
    }
}

/// No device is what was looked for.
#[derive(Debug, Clone)]
pub struct NoDevice {
    pub want_pad: bool,
    pub name_substr: String,
}

impl NoDevice {
    /// What to tell the user.
    pub fn message(&self) -> (r: String)
        ensures
            r@ == "no "@ + (if self.want_pad {
                "gamepad"@
            } else {
                "mouse"@
            }) + " matching name '"@ + self.name_substr@
                + "' with the required capabilities was found"@,
    {
        let mut text = "no ".to_string();
        text.append(
            if self.want_pad {
                "gamepad"
            } else {
                "mouse"
            },
        );
        text.append(" matching name '");
        text.append(self.name_substr.as_str());
        text.append("' with the required capabilities was found");
        text
    }
}

/// The place of the first device that is what is looked for.
pub fn find_device(candidates: &Vec<Candidate>, name_substr: &str, want_pad: bool) -> (r: Result<
    usize,
    NoDevice,
>)
    ensures
        match r {
            Ok(n) => {
                &&& n < candidates@.len()
                &&& candidates@[n as int].suits(name_substr@, want_pad)
                &&& forall|j: int|
                    0 <= j < n ==> !(#[trigger] candidates@[j]).suits(name_substr@, want_pad)
            },
            Err(e) => {
                &&& forall|j: int|
                    0 <= j < candidates@.len() ==> !(#[trigger] candidates@[j]).suits(
                        name_substr@,
                        want_pad,
                    )
                &&& e.want_pad == want_pad
                &&& e.name_substr@ == name_substr@
            },
        },
        r is Ok <==> exists|j: int|
            0 <= j < candidates@.len() && (#[trigger] candidates@[j]).suits(name_substr@, want_pad),
{
    for n in 0..candidates.len()
        invariant
            forall|j: int|
                0 <= j < n ==> !(#[trigger] candidates@[j]).suits(name_substr@, want_pad),
    {
        if candidates[n].matches_device(name_substr, want_pad) {
            return Ok(n);
        }
    }
    Err(NoDevice { want_pad, name_substr: name_substr.to_string() })
}

/// The set of buttons that a device announces: an `evdev::AttributeSet` of key codes.
#[verifier::external_body]
pub struct KeySet {
    inner: AttributeSet<KeyCode>,
}

/// The codes that an announced set has.
pub uninterp spec fn key_set_codes(keys: &KeySet) -> Set<u16>;

/// Calls `evdev::AttributeSet::new`. Claimed of it: the set is empty.
#[verifier::external_body]
fn key_set_new() -> (r: KeySet)
    ensures
        key_set_codes(&r) == Set::<u16>::empty(),
{
    KeySet { inner: AttributeSet::new() }
}

/// Calls `evdev::AttributeSetRef::insert`. Claimed of it: the set has the code from now on,
/// and is otherwise as it was. The set has room for the codes below 0x300.
#[verifier::external_body]
fn key_set_insert(keys: &mut KeySet, code: u16)
    requires
        code < 0x300,
    ensures
        key_set_codes(final(keys)) == key_set_codes(old(keys)).insert(code),
{
    keys.inner.insert(KeyCode(code))
}

/// Calls the `Deref` of `evdev::AttributeSet`. Claimed of it: it gives the same codes.
#[verifier::external_body]
fn key_set_deref(keys: &KeySet) -> (r: &AttributeSetRef<KeyCode>)
    ensures
        key_codes(r) == key_set_codes(keys),
{
    &keys.inner
}

impl KeySet {
    /// The set, as the virtual device takes it.
    pub fn attributes(&self) -> (r: &AttributeSetRef<KeyCode>)
        ensures
            key_codes(r) == key_set_codes(self),
    {
        key_set_deref(self)
    }
}

/// The buttons that the virtual pad announces.
pub fn declared_key_set() -> (r: KeySet)
    ensures
        forall|k: u16| #[trigger] key_set_codes(&r).contains(k) <==> declared(k),
{
    let mut set = key_set_new();
    let keys = DECLARED_KEYS;
    for i in 0..keys.len()
        invariant
            keys@ == DECLARED_KEYS@,
            forall|k: u16| #[trigger]
                key_set_codes(&set).contains(k) <==> exists|j: int|
                    0 <= j < i && #[trigger] keys@[j] == k,
    {
        key_set_insert(&mut set, keys[i]);
    }
    set
}

/// How an absolute axis of the virtual pad is announced.
#[derive(Debug, Clone, Copy, PartialEq, Eq, Structural)]
pub struct AxisSetup {
    pub code: u16,
    pub value: i32,
    pub minimum: i32,
    pub maximum: i32,
    pub fuzz: i32,
    pub flat: i32,
    pub resolution: i32,
}

/// An axis with this range and this value to start from, and no filtering.
pub open spec fn axis(code: u16, value: i32, minimum: i32, maximum: i32) -> AxisSetup {
    AxisSetup { code, value, minimum, maximum, fuzz: 0, flat: 0, resolution: 0 }
}

/// The axes that the virtual pad announces.
pub open spec fn announced_axes() -> Seq<AxisSetup> {
    seq![
        axis(ABS_X, STICK_CENTER, STICK_MIN, STICK_MAX),
        axis(ABS_Y, STICK_CENTER, STICK_MIN, STICK_MAX),
        axis(ABS_RX, 0, (-RSTICK_MAX) as i32, RSTICK_MAX),
        axis(ABS_RY, 0, (-RSTICK_MAX) as i32, RSTICK_MAX),
        axis(ABS_Z, 0, 0, TRIGGER_MAX),
        axis(ABS_RZ, 0, 0, TRIGGER_MAX),
        axis(ABS_HAT0X, 0, (-1) as i32, 1),
        axis(ABS_HAT0Y, 0, (-1) as i32, 1),
    ]
}

/// An axis with this range and this value to start from, and no filtering.
fn plain_axis(code: u16, value: i32, minimum: i32, maximum: i32) -> (r: AxisSetup)
    ensures
        r == axis(code, value, minimum, maximum),
{
    AxisSetup { code, value, minimum, maximum, fuzz: 0, flat: 0, resolution: 0 }
}

/// The name of the virtual pad.
pub fn virtual_pad_name() -> (r: &'static str)
    ensures
        r@ == "JoyClicks Virtual Gamepad"@,
{
    "JoyClicks Virtual Gamepad"
}

/// The axes that the virtual pad announces.
pub fn virtual_pad_axes() -> (r: Vec<AxisSetup>)
    ensures
        r@ == announced_axes(),
{
    let rstick_min: i32 = -RSTICK_MAX;
    vec![
        plain_axis(ABS_X, STICK_CENTER, STICK_MIN, STICK_MAX),
        plain_axis(ABS_Y, STICK_CENTER, STICK_MIN, STICK_MAX),
        plain_axis(ABS_RX, 0, rstick_min, RSTICK_MAX),
        plain_axis(ABS_RY, 0, rstick_min, RSTICK_MAX),
        plain_axis(ABS_Z, 0, 0, TRIGGER_MAX),
        plain_axis(ABS_RZ, 0, 0, TRIGGER_MAX),
        plain_axis(ABS_HAT0X, 0, -1, 1),
        plain_axis(ABS_HAT0Y, 0, -1, 1),
    ]
}

/// Every announced axis starts where the pad at rest has it, and no other axis is driven.
pub proof fn announced_axes_start_at_rest()
    ensures
        forall|i: int|
            0 <= i < announced_axes().len() ==> neutral().abs.contains_key(
                (#[trigger] announced_axes()[i]).code,
            ) && neutral().abs[announced_axes()[i].code] == announced_axes()[i].value,
        forall|code: u16| #[trigger]
            neutral().abs.contains_key(code) ==> exists|i: int|
                0 <= i < announced_axes().len() && (#[trigger] announced_axes()[i]).code == code,
{
    let all = announced_axes();
    assert(all[0].code == ABS_X && all[1].code == ABS_Y && all[2].code == ABS_RX && all[3].code
        == ABS_RY && all[4].code == ABS_Z && all[5].code == ABS_RZ && all[6].code == ABS_HAT0X
        && all[7].code == ABS_HAT0Y);
}

/// The gamepad reports values in the ranges that the virtual pad announces for them.
pub open spec fn in_announced_range(pad: PadInput) -> bool {
    &&& STICK_MIN <= pad.lx <= STICK_MAX
    &&& STICK_MIN <= pad.ly <= STICK_MAX
    &&& 0 <= pad.lt <= TRIGGER_MAX
    &&& 0 <= pad.rt <= TRIGGER_MAX
    &&& -1 <= pad.hatx <= 1
    &&& -1 <= pad.haty <= 1
}

/// While the gamepad reports values in range, every value that the virtual pad is sent is in
/// the range that it announced.
pub proof fn outputs_fit_announced_axes(
    rx: i32,
    ry: i32,
    pad: PadInput,
    pad_keys: Map<u16, i32>,
    active: Seq<Control>,
    i: int,
)
    requires
        in_announced_range(pad),
        0 <= i < announced_axes().len(),
    ensures
        ({
            let a = announced_axes()[i];
            a.minimum <= desired_state(rx, ry, pad, pad_keys, active).abs[a.code] <= a.maximum
        }),
{
    desired_in_range(rx, ry, pad, pad_keys, active);
}

/// A text occurs in another exactly where the other one is that text with something, or nothing,
/// before and after it.
pub proof fn occurring_is_standing_between(
    needle: Seq<char>,
    before: Seq<char>,
    after: Seq<char>,
    text: Seq<char>,
)
    ensures
        occurs_in(needle, before + needle + after),
        occurs_in(needle, text) ==> exists|b: Seq<char>, a: Seq<char>|
            text == #[trigger] (b + needle + a),
{
    let whole = before + needle + after;
    let at = before.len() as int;
    assert(whole.subrange(at, at + needle.len()) == needle);
    if occurs_in(needle, text) {
        let i = choose|i: int|
            0 <= i <= text.len() - needle.len() && #[trigger] text.subrange(i, i + needle.len())
                == needle;
        let b = text.subrange(0, i);
        let a = text.subrange(i + needle.len(), text.len() as int);
        assert(text == b + text.subrange(i, i + needle.len()) + a);
        assert(text == b + needle + a);
    }
}

/// A gamepad is a device with the name and the south button; a mouse is one with the name, the x
/// axis and the left button. A device that reports no buttons is neither.
pub proof fn devices_suit_by_name_and_abilities(c: Candidate, name_substr: Seq<char>)
    ensures
        c.suits(name_substr, true) <==> occurs_in(name_substr, c.name@) && (c.keys matches Some(k)
            && key_codes(k).contains(0x130)),
        c.suits(name_substr, false) <==> occurs_in(name_substr, c.name@) && (c.keys matches Some(k)
            && key_codes(k).contains(0x110)) && (c.relative_axes matches Some(r) && rel_codes(
            r,
        ).contains(0)),
        c.keys is None ==> !c.suits(name_substr, true) && !c.suits(name_substr, false),
{
}

/// The sticks are announced with their center, the triggers and the hat released; each axis once.
pub proof fn axes_are_announced_with_these_ranges(i: int, j: int)
    requires
        0 <= i < announced_axes().len(),
        0 <= j < announced_axes().len(),
    ensures
        ({
            let a = announced_axes()[i];
            &&& a.code == announced_axes()[j].code ==> i == j
            &&& a.minimum <= a.value <= a.maximum
            &&& a.fuzz == 0 && a.flat == 0 && a.resolution == 0
            &&& a.code == 0x00 || a.code == 0x01 ==> a.value == 128 && a.minimum == 0 && a.maximum
                == 255
            &&& a.code == 0x03 || a.code == 0x04 ==> a.value == 0 && a.minimum == -32767
                && a.maximum == 32767
            &&& a.code == 0x02 || a.code == 0x05 ==> a.value == 0 && a.minimum == 0 && a.maximum
                == 255
            &&& a.code == 0x10 || a.code == 0x11 ==> a.value == 0 && a.minimum == -1 && a.maximum
                == 1
        }),
{
}

} // verus!
