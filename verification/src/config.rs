//! Configuration: the values, their defaults, and what is done to a configuration before it
//! is used. All aim-feel tuning and the mouse button map live here.

use crate::binary32::{lemma_rank_orders, Binary32};
use vstd::arithmetic::power2::{lemma2_to64, lemma_pow2_adds, pow2};
use vstd::prelude::*;

verus! {

/// A control of the virtual pad that a mouse input can be mapped to.
#[derive(Debug, Clone, Copy, PartialEq, Eq, Structural)]
pub enum Control {
    /// No control: the input does nothing.
    Unbound,
    R2,
    L2,
    R1,
    L1,
    Cross,
    Circle,
    Square,
    Triangle,
    L3,
    R3,
    DpadUp,
    DpadDown,
    DpadLeft,
    DpadRight,
}

impl Default for Control {
    fn default() -> (r: Self)
        ensures
            r == Control::Unbound,
    {
        Control::Unbound
    }
}

/// The number under which a control is kept: its place in the list above, from 0.
pub open spec fn control_code(c: Control) -> u8 {
    match c {
        Control::Unbound => 0,
        Control::R2 => 1,
        Control::L2 => 2,
        Control::R1 => 3,
        Control::L1 => 4,
        Control::Cross => 5,
        Control::Circle => 6,
        Control::Square => 7,
        Control::Triangle => 8,
        Control::L3 => 9,
        Control::R3 => 10,
        Control::DpadUp => 11,
        Control::DpadDown => 12,
        Control::DpadLeft => 13,
        Control::DpadRight => 14,
    }
}

/// The control kept under a number; `Unbound` where no control is.
pub open spec fn control_at(v: u8) -> Control {
    if exists|c: Control| control_code(c) == v {
        choose|c: Control| control_code(c) == v
    } else {
        Control::Unbound
    }
}

/// No two controls share a number, and the numbers in use are 0 to 14.
pub proof fn control_codes_are_distinct(a: Control, b: Control)
    ensures
        control_code(a) == control_code(b) ==> a == b,
        control_code(a) <= 14,
{
}

/// A control comes back from its number: the list of controls and the way back agree.
pub proof fn control_round_trip(c: Control)
    ensures
        control_at(control_code(c)) == c,
{
    let d = choose|d: Control| control_code(d) == control_code(c);
    control_codes_are_distinct(c, d);
}

/// Every number up to 14 is the number of the control that it gives; beyond, there is none.
pub proof fn code_round_trip(v: u8)
    ensures
        v <= 14 ==> control_code(control_at(v)) == v,
        v > 14 ==> control_at(v) == Control::Unbound,
{
    let all = seq![
        Control::Unbound,
        Control::R2,
        Control::L2,
        Control::R1,
        Control::L1,
        Control::Cross,
        Control::Circle,
        Control::Square,
        Control::Triangle,
        Control::L3,
        Control::R3,
        Control::DpadUp,
        Control::DpadDown,
        Control::DpadLeft,
        Control::DpadRight,
    ];
    if v <= 14 {
        assert(control_code(all[v as int]) == v);
    }
}

/// The number of a control.
pub fn control_to_u8(c: Control) -> (r: u8)
    ensures
        r == control_code(c),
{
    match c {
        Control::Unbound => 0,
        Control::R2 => 1,
        Control::L2 => 2,
        Control::R1 => 3,
        Control::L1 => 4,
        Control::Cross => 5,
        Control::Circle => 6,
        Control::Square => 7,
        Control::Triangle => 8,
        Control::L3 => 9,
        Control::R3 => 10,
        Control::DpadUp => 11,
        Control::DpadDown => 12,
        Control::DpadLeft => 13,
        Control::DpadRight => 14,
    }
}

/// The control of a number; `Control::Unbound` for a number that no control has.
pub fn control_from_u8(v: u8) -> (r: Control)
    ensures
        r == control_at(v),
        v <= 14 ==> control_code(r) == v,
        v > 14 ==> r == Control::Unbound,
{
    let r = match v {
        1 => Control::R2,
        2 => Control::L2,
        3 => Control::R1,
        4 => Control::L1,
        5 => Control::Cross,
        6 => Control::Circle,
        7 => Control::Square,
        8 => Control::Triangle,
        9 => Control::L3,
        10 => Control::R3,
        11 => Control::DpadUp,
        12 => Control::DpadDown,
        13 => Control::DpadLeft,
        14 => Control::DpadRight,
        _ => Control::Unbound,
    };
    proof {
        code_round_trip(v);
        control_codes_are_distinct(r, control_at(v));
    }
    r
}

/// Which devices to use.
#[derive(Debug, Clone)]
pub struct Devices {
    /// Substring matched against the gamepad's name.
    pub pad_name: String,
    /// Substring matched against the mouse's name.
    pub mouse_name: String,
}

impl Default for Devices {
    fn default() -> (r: Self)
        ensures
            r.pad_name@ == "Wireless Controller"@,
            r.mouse_name@ == "Gaming Mouse"@,
    {
        Devices {
            pad_name: "Wireless Controller".to_string(),
            mouse_name: "Gaming Mouse".to_string(),
        }
    }
}

/// 0.0
pub const ZERO: u32 = 0;

/// 1.0
pub const ONE: u32 = 0x3f80_0000;

/// 0.030, the sensitivity that is used where none is given.
pub const DEFAULT_SENSITIVITY: u32 = 0x3cf5_c28f;

/// 0.85, the decay that is used where none is given.
pub const DEFAULT_DECAY: u32 = 0x3f59_999a;

/// 10.0
pub const MAX_SENSITIVITY: u32 = 0x4120_0000;

/// 0.05
pub const MIN_Y_SCALE: u32 = 0x3d4c_cccd;

/// 20.0
pub const MAX_Y_SCALE: u32 = 0x41a0_0000;

/// 0.999; below 1, so that the stick springs back to its center.
pub const MAX_DECAY: u32 = 0x3f7f_be77;

/// 0.9
pub const MAX_LOW_END_BOOST: u32 = 0x3f66_6666;

/// The tick rate that is used where none is given.
pub const DEFAULT_TICK_HZ: u32 = 500;

/// The number with this bit pattern.
pub open spec fn num(bits: u32) -> Binary32 {
    Binary32 { bits }
}

/// How mouse motion becomes right-stick deflection.
#[derive(Debug, Clone, Copy)]
pub struct Aim {
    /// Mouse counts -> right-stick fraction added per count (raw gain before the spring).
    pub sensitivity: Binary32,
    /// Extra gain on the vertical axis only, relative to horizontal; 1.0 is symmetric.
    pub y_scale: Binary32,
    /// Per-tick spring-back toward center, 0..1. Higher holds deflection longer.
    pub decay: Binary32,
    /// Maximum right-stick deflection as a fraction, 0..1.
    pub max_deflection: Binary32,
    /// Ignore right-stick deflection below this fraction (0..1) after integration.
    pub deadzone: Binary32,
    /// While the mouse is moving, the least magnitude of the stick output; 0 turns it off.
    pub low_end_boost: Binary32,
    /// Invert the vertical aim axis.
    pub invert_y: bool,
    /// Integration/emit tick rate in Hz.
    pub tick_hz: u32,
}

/// The aim settings that are used where none are given.
pub open spec fn default_aim() -> Aim {
    Aim {
        sensitivity: num(DEFAULT_SENSITIVITY),
        y_scale: num(ONE),
        decay: num(DEFAULT_DECAY),
        max_deflection: num(ONE),
        deadzone: num(ZERO),
        low_end_boost: num(ZERO),
        invert_y: false,
        tick_hz: DEFAULT_TICK_HZ,
    }
}

impl Default for Aim {
    fn default() -> (r: Self)
        ensures
            r == default_aim(),
    {
        Aim {
            sensitivity: Binary32 { bits: DEFAULT_SENSITIVITY },
            y_scale: Binary32 { bits: ONE },
            decay: Binary32 { bits: DEFAULT_DECAY },
            max_deflection: Binary32 { bits: ONE },
            deadzone: Binary32 { bits: ZERO },
            low_end_boost: Binary32 { bits: ZERO },
            invert_y: false,
            tick_hz: DEFAULT_TICK_HZ,
        }
    }
}

/// The mouse button map.
#[derive(Debug, Clone)]
pub struct Buttons {
    pub left_click: Control,
    pub right_click: Control,
    pub middle_click: Control,
    pub side: Control,
    pub extra: Control,
    pub wheel_up: Control,
    pub wheel_down: Control,
    /// How long a wheel "tap" is held, in milliseconds, before auto-release.
    pub tap_ms: u32,
}

/// The button map that is used where none is given.
pub open spec fn default_buttons() -> Buttons {
    Buttons {
        left_click: Control::R2,
        right_click: Control::L2,
        middle_click: Control::R3,
        side: Control::Cross,
        extra: Control::Square,
        wheel_up: Control::DpadUp,
        wheel_down: Control::DpadDown,
        tap_ms: 50,
    }
}

impl Default for Buttons {
    fn default() -> (r: Self)
        ensures
            r == default_buttons(),
    {
        Buttons {
            left_click: Control::R2,  // fire
            right_click: Control::L2,  // aim down sights
            middle_click: Control::R3,  // melee / stick click
            side: Control::Cross,  // jump
            extra: Control::Square,  // reload / interact
            wheel_up: Control::DpadUp,  // next weapon
            wheel_down: Control::DpadDown,
            tap_ms: 50,
        }
    }
}

/// The whole configuration.
#[derive(Debug, Clone)]
pub struct Config {
    pub devices: Devices,
    pub aim: Aim,
    pub buttons: Buttons,
}

impl Config {
    /// Every setting has the value that it has where none is given.
    pub open spec fn is_default(self) -> bool {
        &&& self.devices.pad_name@ == "Wireless Controller"@
        &&& self.devices.mouse_name@ == "Gaming Mouse"@
        &&& self.aim == default_aim()
        &&& self.buttons == default_buttons()
    }
}

impl Default for Config {
    fn default() -> (r: Self)
        ensures
            r.is_default(),
    {
        Config { devices: Devices::default(), aim: Aim::default(), buttons: Buttons::default() }
    }
}

/// The number itself where it is finite and meets the test, the fallback elsewhere.
pub open spec fn finite_or(v: Binary32, test: bool, fallback: Binary32) -> Binary32 {
    if v.finite() && test {
        v
    } else {
        fallback
    }
}

/// The aim settings with every value in its range. A value that is no finite number, or that
/// has a sign it cannot have, is replaced; then each is clamped. The boost stays within the
/// deflection that it could otherwise exceed.
pub open spec fn sanitized(a: Aim) -> Aim {
    let zero = num(ZERO);
    let one = num(ONE);
    let sensitivity = finite_or(
        a.sensitivity,
        !a.sensitivity.below(zero),
        num(DEFAULT_SENSITIVITY),
    ).clamped(zero, num(MAX_SENSITIVITY));
    let y_scale = finite_or(a.y_scale, !a.y_scale.at_most(zero), one).clamped(
        num(MIN_Y_SCALE),
        num(MAX_Y_SCALE),
    );
    let decay = finite_or(a.decay, true, num(DEFAULT_DECAY)).clamped(zero, num(MAX_DECAY));
    let max_deflection = finite_or(a.max_deflection, true, one).clamped(zero, one);
    let deadzone = finite_or(a.deadzone, !a.deadzone.below(zero), zero).clamped(zero, one);
    let boost = finite_or(a.low_end_boost, !a.low_end_boost.below(zero), zero).clamped(
        zero,
        num(MAX_LOW_END_BOOST),
    );
    Aim {
        sensitivity,
        y_scale,
        decay,
        max_deflection,
        deadzone,
        low_end_boost: if max_deflection.below(boost) {
            max_deflection
        } else {
            boost
        },
        invert_y: a.invert_y,
        tick_hz: if a.tick_hz == 0 {
            DEFAULT_TICK_HZ
        } else {
            a.tick_hz
        },
    }
}

/// `lo <= v <= hi`, all of them numbers.
pub open spec fn within(v: Binary32, lo: u32, hi: u32) -> bool {
    num(lo).at_most(v) && v.at_most(num(hi))
}

/// Every aim value is a number in its range: the stick can neither be pinned nor frozen.
pub open spec fn sane(a: Aim) -> bool {
    &&& within(a.sensitivity, ZERO, MAX_SENSITIVITY)
    &&& within(a.y_scale, MIN_Y_SCALE, MAX_Y_SCALE)
    &&& within(a.decay, ZERO, MAX_DECAY)
    &&& within(a.max_deflection, ZERO, ONE)
    &&& within(a.deadzone, ZERO, ONE)
    &&& within(a.low_end_boost, ZERO, MAX_LOW_END_BOOST)
    &&& a.low_end_boost.at_most(a.max_deflection)
    &&& a.tick_hz > 0
}

/// The constants stand in the order of the numbers that they are.
proof fn lemma_constants_ordered()
    ensures
        num(ZERO).below(num(DEFAULT_SENSITIVITY)),
        num(DEFAULT_SENSITIVITY).below(num(MIN_Y_SCALE)),
        num(MIN_Y_SCALE).below(num(DEFAULT_DECAY)),
        num(DEFAULT_DECAY).below(num(MAX_LOW_END_BOOST)),
        num(MAX_LOW_END_BOOST).below(num(MAX_DECAY)),
        num(MAX_DECAY).below(num(ONE)),
        num(ONE).below(num(MAX_SENSITIVITY)),
        num(MAX_SENSITIVITY).below(num(MAX_Y_SCALE)),
{
    lemma_rank_orders(num(ZERO), num(DEFAULT_SENSITIVITY));
    lemma_rank_orders(num(DEFAULT_SENSITIVITY), num(MIN_Y_SCALE));
    lemma_rank_orders(num(MIN_Y_SCALE), num(DEFAULT_DECAY));
    lemma_rank_orders(num(DEFAULT_DECAY), num(MAX_LOW_END_BOOST));
    lemma_rank_orders(num(MAX_LOW_END_BOOST), num(MAX_DECAY));
    lemma_rank_orders(num(MAX_DECAY), num(ONE));
    lemma_rank_orders(num(ONE), num(MAX_SENSITIVITY));
    lemma_rank_orders(num(MAX_SENSITIVITY), num(MAX_Y_SCALE));
}

/// The whole numbers among the constants are exactly what they are said to be: 1.0 is 2^149
/// units, and the others are multiples of it.
pub proof fn whole_constants_are_exact()
    ensures
        num(ZERO).units() == 0,
        num(ONE).units() == pow2(149),
        num(MAX_SENSITIVITY).units() == 10 * pow2(149),
        num(MAX_Y_SCALE).units() == 20 * pow2(149),
{
    lemma2_to64();
    lemma_pow2_adds(23, 126);
    lemma_pow2_adds(3, 126);
    lemma_pow2_adds(4, 126);
    assert(0xa0_0000 * (8 * pow2(126)) == 10 * (0x80_0000 * pow2(126))) by (nonlinear_arith);
    assert(0xa0_0000 * (16 * pow2(126)) == 20 * (0x80_0000 * pow2(126))) by (nonlinear_arith);
}

/// Whatever the settings were, the sanitized ones are in range.
pub proof fn sanitized_is_sane(a: Aim)
    ensures
        sane(sanitized(a)),
{
    lemma_constants_ordered();
}

/// What lies between two finite numbers is finite.
proof fn lemma_within_is_finite(v: Binary32, lo: u32, hi: u32)
    requires
        within(v, lo, hi),
        num(lo).finite(),
        num(hi).finite(),
    ensures
        v.finite(),
{
    lemma_rank_orders(num(lo), v);
    lemma_rank_orders(v, num(hi));
}

/// Settings in range are left exactly as they are; so sanitizing twice is sanitizing once.
pub proof fn sanitized_keeps_sane(a: Aim)
    requires
        sane(a),
    ensures
        sanitized(a) == a,
{
    lemma_constants_ordered();
    lemma_within_is_finite(a.sensitivity, ZERO, MAX_SENSITIVITY);
    lemma_within_is_finite(a.y_scale, MIN_Y_SCALE, MAX_Y_SCALE);
    lemma_within_is_finite(a.decay, ZERO, MAX_DECAY);
    lemma_within_is_finite(a.max_deflection, ZERO, ONE);
    lemma_within_is_finite(a.deadzone, ZERO, ONE);
    lemma_within_is_finite(a.low_end_boost, ZERO, MAX_LOW_END_BOOST);
}

/// The default settings are in range.
pub proof fn default_aim_is_sane()
    ensures
        sane(default_aim()),
{
    lemma_constants_ordered();
}

/// The decay that a sanitized configuration has is below 1: the spring always pulls back.
pub proof fn sanitized_decay_below_one(a: Aim)
    ensures
        sanitized(a).decay.below(num(ONE)),
{
    lemma_constants_ordered();
}

/// The base directory of the configuration file and the names below it, outermost first.
pub struct ConfigPath<P> {
    pub base: P,
    pub components: Vec<&'static str>,
}

/// Neither `XDG_CONFIG_HOME` nor `HOME` is set.
#[derive(Debug, Clone, Copy, PartialEq, Eq, Structural)]
pub struct NoConfigHome;

/// What is known of the configuration file.
#[derive(Debug, Clone)]
pub enum ConfigFile {
    /// There is no file.
    Missing,
    /// There is a file, and it could not be read.
    Unreadable,
    /// The file is not a configuration.
    Malformed,
    /// The configuration as it stands in the file.
    Parsed(Config),
}

/// Why there is no configuration.
#[derive(Debug, Clone, Copy, PartialEq, Eq, Structural)]
pub enum LoadError {
    Reading,
    Parsing,
}

/// What the configuration is after a start, and whether the file is to be written.
pub struct Loaded {
    pub config: Config,
    /// The file is not there yet: write this configuration out.
    pub write_out: bool,
}

impl Config {
    /// Where the configuration file is: below `XDG_CONFIG_HOME` where that is set, else below
    /// `.config` in `HOME`.
    pub fn path<P>(xdg_config_home: Option<P>, home: Option<P>) -> (r: Result<
        ConfigPath<P>,
        NoConfigHome,
    >)
        ensures
            xdg_config_home matches Some(x) ==> r matches Ok(p) && p.base == x && p.components@
                == seq!["joyclicks", "config.toml"],
            xdg_config_home is None ==> (home matches Some(h) ==> r matches Ok(p) && p.base == h
                && p.components@ == seq![".config", "joyclicks", "config.toml"]),
            xdg_config_home is None && home is None <==> r is Err,
    {
        match xdg_config_home {
            Some(base) => Ok(ConfigPath { base, components: vec!["joyclicks", "config.toml"] }),
            None => match home {
                Some(base) => Ok(
                    ConfigPath { base, components: vec![".config", "joyclicks", "config.toml"] },
                ),
                None => Err(NoConfigHome),
            },
        }
    }

    /// Clamp aim values to sane ranges so a bad config can't pin or freeze the stick.
    pub fn sanitize(&mut self)
        ensures
            final(self).aim == sanitized(old(self).aim),
            final(self).devices == old(self).devices,
            final(self).buttons == old(self).buttons,
            sane(final(self).aim),
            sane(old(self).aim) ==> final(self).aim == old(self).aim,
    {
        let zero = Binary32 { bits: ZERO };
        let one = Binary32 { bits: ONE };
        let default = Aim::default();
        let mut a = self.aim;
        proof {
            lemma_constants_ordered();
            sanitized_is_sane(self.aim);
            if sane(self.aim) {
                sanitized_keeps_sane(self.aim);
            }
        }
        if !a.sensitivity.is_finite() || a.sensitivity.lt(zero) {
            a.sensitivity = default.sensitivity;
        }
        a.sensitivity = a.sensitivity.clamp(zero, Binary32 { bits: MAX_SENSITIVITY });
        if !a.y_scale.is_finite() || a.y_scale.le(zero) {
            a.y_scale = one;
        }
        a.y_scale = a.y_scale.clamp(Binary32 { bits: MIN_Y_SCALE }, Binary32 { bits: MAX_Y_SCALE });
        if !a.decay.is_finite() {
            a.decay = default.decay;
        }
        a.decay = a.decay.clamp(zero, Binary32 { bits: MAX_DECAY });  // < 1 guarantees spring-back
        if !a.max_deflection.is_finite() {
            a.max_deflection = one;
        }
        a.max_deflection = a.max_deflection.clamp(zero, one);
        if !a.deadzone.is_finite() || a.deadzone.lt(zero) {
            a.deadzone = zero;
        }
        a.deadzone = a.deadzone.clamp(zero, one);
        if !a.low_end_boost.is_finite() || a.low_end_boost.lt(zero) {
            a.low_end_boost = zero;
        }
        // Cap the boost at 0.9 and never above the deflection ceiling it would exceed.
        a.low_end_boost = a.low_end_boost.clamp(zero, Binary32 { bits: MAX_LOW_END_BOOST });
        if a.max_deflection.lt(a.low_end_boost) {
            a.low_end_boost = a.max_deflection;
        }
        if a.tick_hz == 0 {
            a.tick_hz = default.tick_hz;
        }
        self.aim = a;
    }

    /// The configuration to start with: the one in the file, sanitized, or, where there is no
    /// file yet, the defaults, which are then to be written out. A file that is there and cannot
    /// be used is an error, and is left as it is.
    pub fn load_or_create(file: ConfigFile) -> (r: Result<Loaded, LoadError>)
        ensures
            match file {
                ConfigFile::Missing => r matches Ok(l) && l.config.is_default() && l.write_out,
                ConfigFile::Unreadable => r == Err::<Loaded, LoadError>(LoadError::Reading),
                ConfigFile::Malformed => r == Err::<Loaded, LoadError>(LoadError::Parsing),
                ConfigFile::Parsed(c) => {
                    &&& r matches Ok(l)
                    &&& l.config.aim == sanitized(c.aim)
                    &&& l.config.devices == c.devices
                    &&& l.config.buttons == c.buttons
                    &&& !l.write_out
                },
            },
            r matches Ok(l) ==> sane(l.config.aim) && l.write_out == (file is Missing),
            r is Err <==> file is Unreadable || file is Malformed,
            file matches ConfigFile::Parsed(c) ==> sane(c.aim) ==> r->Ok_0.config.aim == c.aim,
    {
        match file {
            ConfigFile::Missing => {
                proof {
                    default_aim_is_sane();
                }
                Ok(Loaded { config: Config::default(), write_out: true })
            },
            ConfigFile::Unreadable => Err(LoadError::Reading),
            ConfigFile::Malformed => Err(LoadError::Parsing),
            ConfigFile::Parsed(config) => {
                let mut config = config;
                config.sanitize();
                Ok(Loaded { config, write_out: false })
            },
        }
    }
}

/// A sensitivity that is no finite number or negative becomes 0.03; one above 10 becomes 10; any
/// other stays.
pub proof fn sensitivity_is_sanitized(a: Aim)
    ensures
        !a.sensitivity.finite() || a.sensitivity.below(num(0)) ==> sanitized(a).sensitivity == num(
            0x3cf5_c28f,
        ),
        a.sensitivity.finite() && num(0x4120_0000).below(a.sensitivity) ==> sanitized(a).sensitivity
            == num(0x4120_0000),
        num(0).at_most(a.sensitivity) && a.sensitivity.at_most(num(0x4120_0000)) ==> sanitized(
            a,
        ).sensitivity == a.sensitivity,
{
    lemma_constants_ordered();
    if within(a.sensitivity, 0, 0x4120_0000) {
        lemma_within_is_finite(a.sensitivity, 0, 0x4120_0000);
    }
}

/// A vertical scale that is no finite number or not positive becomes 1; one below 0.05 becomes
/// 0.05, one above 20 becomes 20; any other stays.
pub proof fn y_scale_is_sanitized(a: Aim)
    ensures
        !a.y_scale.finite() || a.y_scale.at_most(num(0)) ==> sanitized(a).y_scale == num(
            0x3f80_0000,
        ),
        num(0).below(a.y_scale) && a.y_scale.below(num(0x3d4c_cccd)) ==> sanitized(a).y_scale
            == num(0x3d4c_cccd),
        a.y_scale.finite() && num(0x41a0_0000).below(a.y_scale) ==> sanitized(a).y_scale == num(
            0x41a0_0000,
        ),
        num(0x3d4c_cccd).at_most(a.y_scale) && a.y_scale.at_most(num(0x41a0_0000)) ==> sanitized(
            a,
        ).y_scale == a.y_scale,
{
    lemma_constants_ordered();
    if within(a.y_scale, 0, 0x41a0_0000) {
        lemma_within_is_finite(a.y_scale, 0, 0x41a0_0000);
    }
}

/// A decay that is no finite number becomes 0.85; one below 0 becomes 0, one above 0.999 becomes
/// 0.999; any other stays.
pub proof fn decay_is_sanitized(a: Aim)
    ensures
        !a.decay.finite() ==> sanitized(a).decay == num(0x3f59_999a),
        a.decay.finite() && a.decay.below(num(0)) ==> sanitized(a).decay == num(0),
        a.decay.finite() && num(0x3f7f_be77).below(a.decay) ==> sanitized(a).decay == num(
            0x3f7f_be77,
        ),
        num(0).at_most(a.decay) && a.decay.at_most(num(0x3f7f_be77)) ==> sanitized(a).decay
            == a.decay,
{
    lemma_constants_ordered();
    if within(a.decay, 0, 0x3f7f_be77) {
        lemma_within_is_finite(a.decay, 0, 0x3f7f_be77);
    }
}

/// A maximal deflection that is no finite number becomes 1; one below 0 becomes 0, one above 1
/// becomes 1; any other stays.
pub proof fn max_deflection_is_sanitized(a: Aim)
    ensures
        !a.max_deflection.finite() || num(0x3f80_0000).below(a.max_deflection) ==> sanitized(
            a,
        ).max_deflection == num(0x3f80_0000),
        a.max_deflection.finite() && a.max_deflection.below(num(0)) ==> sanitized(a).max_deflection
            == num(0),
        num(0).at_most(a.max_deflection) && a.max_deflection.at_most(num(0x3f80_0000))
            ==> sanitized(a).max_deflection == a.max_deflection,
{
    lemma_constants_ordered();
    if within(a.max_deflection, 0, 0x3f80_0000) {
        lemma_within_is_finite(a.max_deflection, 0, 0x3f80_0000);
    }
}

/// A deadzone that is no finite number or negative becomes 0; one above 1 becomes 1; any other
/// stays.
pub proof fn deadzone_is_sanitized(a: Aim)
    ensures
        !a.deadzone.finite() || a.deadzone.below(num(0)) ==> sanitized(a).deadzone == num(0),
        a.deadzone.finite() && num(0x3f80_0000).below(a.deadzone) ==> sanitized(a).deadzone == num(
            0x3f80_0000,
        ),
        num(0).at_most(a.deadzone) && a.deadzone.at_most(num(0x3f80_0000)) ==> sanitized(a).deadzone
            == a.deadzone,
{
    lemma_constants_ordered();
    if within(a.deadzone, 0, 0x3f80_0000) {
        lemma_within_is_finite(a.deadzone, 0, 0x3f80_0000);
    }
}

/// A boost that is no finite number or negative becomes 0. Any other becomes the least of itself,
/// 0.9 and the maximal deflection.
pub proof fn low_end_boost_is_sanitized(a: Aim)
    ensures
        ({
            let v = a.low_end_boost;
            let r = sanitized(a).low_end_boost;
            let cap = num(0x3f66_6666);
            let ceiling = sanitized(a).max_deflection;
            &&& !v.finite() || v.below(num(0)) ==> r == num(0)
            &&& r.at_most(cap) && r.at_most(ceiling)
            &&& v.finite() && num(0).at_most(v) ==> r.at_most(v) && (r == v || r == cap || r
                == ceiling)
            &&& num(0).at_most(v) && v.at_most(cap) && v.at_most(ceiling) ==> r == v
        }),
{
    lemma_constants_ordered();
    sanitized_is_sane(a);
    if within(a.low_end_boost, 0, 0x3f66_6666) {
        lemma_within_is_finite(a.low_end_boost, 0, 0x3f66_6666);
    }
}

/// A tick rate of 0 becomes 500; any other stays, and so does the inversion.
pub proof fn rate_and_inversion_are_sanitized(a: Aim)
    ensures
        a.tick_hz == 0 ==> sanitized(a).tick_hz == 500,
        a.tick_hz != 0 ==> sanitized(a).tick_hz == a.tick_hz,
        sanitized(a).invert_y == a.invert_y,
{
}

/// The ranges of the settings.
pub proof fn sane_settings_are_in_these_ranges(a: Aim)
    ensures
        sane(a) <==> {
            &&& num(0).at_most(a.sensitivity) && a.sensitivity.at_most(num(0x4120_0000))
            &&& num(0x3d4c_cccd).at_most(a.y_scale) && a.y_scale.at_most(num(0x41a0_0000))
            &&& num(0).at_most(a.decay) && a.decay.at_most(num(0x3f7f_be77))
            &&& num(0).at_most(a.max_deflection) && a.max_deflection.at_most(num(0x3f80_0000))
            &&& num(0).at_most(a.deadzone) && a.deadzone.at_most(num(0x3f80_0000))
            &&& num(0).at_most(a.low_end_boost) && a.low_end_boost.at_most(num(0x3f66_6666))
            &&& a.low_end_boost.at_most(a.max_deflection)
            &&& a.tick_hz != 0
        },
{
}

} // verus!
