//! The Linux input codes that the library knows by name.

use vstd::prelude::*;

verus! {

pub const BTN_LEFT: u16 = 0x110;

pub const BTN_RIGHT: u16 = 0x111;

pub const BTN_MIDDLE: u16 = 0x112;

pub const BTN_SIDE: u16 = 0x113;

pub const BTN_EXTRA: u16 = 0x114;

pub const BTN_SOUTH: u16 = 0x130;

pub const BTN_EAST: u16 = 0x131;

pub const BTN_NORTH: u16 = 0x133;

pub const BTN_WEST: u16 = 0x134;

pub const BTN_TL: u16 = 0x136;

pub const BTN_TR: u16 = 0x137;

pub const BTN_SELECT: u16 = 0x13a;

pub const BTN_START: u16 = 0x13b;

pub const BTN_MODE: u16 = 0x13c;

pub const BTN_THUMBL: u16 = 0x13d;

pub const BTN_THUMBR: u16 = 0x13e;

pub const REL_X: u16 = 0x00;

pub const REL_Y: u16 = 0x01;

pub const REL_WHEEL: u16 = 0x08;

pub const ABS_X: u16 = 0x00;

pub const ABS_Y: u16 = 0x01;

pub const ABS_Z: u16 = 0x02;

pub const ABS_RX: u16 = 0x03;

pub const ABS_RY: u16 = 0x04;

pub const ABS_RZ: u16 = 0x05;

pub const ABS_HAT0X: u16 = 0x10;

pub const ABS_HAT0Y: u16 = 0x11;

/// The full set of virtual-pad buttons that are declared and driven: what the virtual device
/// announces, what is released where nothing holds it, and what is forwarded from the pad.
pub const DECLARED_KEYS: [u16; 10] = [
    BTN_SOUTH,
    BTN_EAST,
    BTN_NORTH,
    BTN_WEST,
    BTN_TL,
    BTN_TR,
    BTN_SELECT,
    BTN_START,
    BTN_THUMBL,
    BTN_THUMBR,
];

/// The virtual pad has this button.
pub open spec fn declared(code: u16) -> bool {
    DECLARED_KEYS@.contains(code)
}

/// Whether the virtual pad has this button.
pub fn is_declared(code: u16) -> (r: bool)
    ensures
        r == declared(code),
{
    let keys = DECLARED_KEYS;
    for i in 0..keys.len()
        invariant
            keys@ == DECLARED_KEYS@,
            forall|j: int| 0 <= j < i ==> keys@[j] != code,
    {
        if keys[i] == code {
            return true;
        }
    }
    false
}

/// The virtual pad has the four face buttons, the two shoulder buttons, select, start and the two
/// stick buttons, and no other.
pub proof fn declared_buttons_are_these(code: u16)
    ensures
        declared(code) <==> (code == 0x130 || code == 0x131 || code == 0x133 || code == 0x134
            || code == 0x136 || code == 0x137 || code == 0x13a || code == 0x13b || code == 0x13d
            || code == 0x13e),
{
    let d = DECLARED_KEYS@;
    assert(d[0] == 0x130 && d[1] == 0x131 && d[2] == 0x133 && d[3] == 0x134 && d[4] == 0x136);
    assert(d[5] == 0x137 && d[6] == 0x13a && d[7] == 0x13b && d[8] == 0x13d && d[9] == 0x13e);
}

} // verus!
