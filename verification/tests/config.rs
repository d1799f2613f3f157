use joyclicks::binary32::Binary32;
use joyclicks::config::{
    control_from_u8, control_to_u8, Aim, Buttons, Config, ConfigFile, Control, Devices, LoadError,
    NoConfigHome,
};

fn num(v: f32) -> Binary32 {
    Binary32 { bits: v.to_bits() }
}

fn val(v: Binary32) -> f32 {
    f32::from_bits(v.bits)
}

fn sanitized(aim: Aim) -> Aim {
    let mut cfg = Config::default();
    cfg.aim = aim;
    cfg.sanitize();
    cfg.aim
}

const ALL: [Control; 15] = [
    Control::Unbound,
    Control::R2,
    Control::L2,
    Control::R1,
    Control::L1,
    Control::Cross,
    Control::Circle,
    Control::Square,
    Control::Triangle,
    Control::L3,
    Control::R3,
    Control::DpadUp,
    Control::DpadDown,
    Control::DpadLeft,
    Control::DpadRight,
];

#[test]
fn default_control_is_unbound() {
    assert_eq!(Control::default(), Control::Unbound);
}

#[test]
fn controls_come_back_from_their_numbers() {
    for (i, c) in ALL.iter().enumerate() {
        assert_eq!(control_to_u8(*c) as usize, i);
        assert_eq!(control_from_u8(i as u8), *c);
    }
    for v in 15..=255u8 {
        assert_eq!(control_from_u8(v), Control::Unbound);
    }
}

#[test]
fn default_devices() {
    let d = Devices::default();
    assert_eq!(d.pad_name, "Wireless Controller");
    assert_eq!(d.mouse_name, "Gaming Mouse");
}

#[test]
fn default_aim() {
    let a = Aim::default();
    assert_eq!(val(a.sensitivity), 0.030);
    assert_eq!(val(a.y_scale), 1.0);
    assert_eq!(val(a.decay), 0.85);
    assert_eq!(val(a.max_deflection), 1.0);
    assert_eq!(val(a.deadzone), 0.0);
    assert_eq!(val(a.low_end_boost), 0.0);
    assert!(!a.invert_y);
    assert_eq!(a.tick_hz, 500);
}

#[test]
fn default_mapping() {
    let b = Buttons::default();
    assert_eq!(b.left_click, Control::R2);
    assert_eq!(b.right_click, Control::L2);
    assert_eq!(b.middle_click, Control::R3);
    assert_eq!(b.side, Control::Cross);
    assert_eq!(b.extra, Control::Square);
    assert_eq!(b.wheel_up, Control::DpadUp);
    assert_eq!(b.wheel_down, Control::DpadDown);
    assert_eq!(b.tap_ms, 50);
}

#[test]
fn not_a_number_is_replaced() {
    for bad in [f32::NAN, f32::INFINITY, f32::NEG_INFINITY] {
        let a = sanitized(Aim {
            sensitivity: num(bad),
            y_scale: num(bad),
            decay: num(bad),
            max_deflection: num(bad),
            deadzone: num(bad),
            low_end_boost: num(bad),
            invert_y: true,
            tick_hz: 0,
        });
        assert_eq!(val(a.sensitivity), 0.030);
        assert_eq!(val(a.y_scale), 1.0);
        assert_eq!(val(a.decay), 0.85);
        assert_eq!(val(a.max_deflection), 1.0);
        assert_eq!(val(a.deadzone), 0.0);
        assert_eq!(val(a.low_end_boost), 0.0);
        assert!(a.invert_y);
        assert_eq!(a.tick_hz, 500);
    }
}

#[test]
fn too_large_is_clamped() {
    let a = sanitized(Aim {
        sensitivity: num(11.0),
        y_scale: num(100.0),
        decay: num(1.0),
        max_deflection: num(2.0),
        deadzone: num(1.5),
        low_end_boost: num(3.0),
        invert_y: false,
        tick_hz: 1000,
    });
    assert_eq!(val(a.sensitivity), 10.0);
    assert_eq!(val(a.y_scale), 20.0);
    assert_eq!(val(a.decay), 0.999);
    assert_eq!(val(a.max_deflection), 1.0);
    assert_eq!(val(a.deadzone), 1.0);
    assert_eq!(val(a.low_end_boost), 0.9);
    assert_eq!(a.tick_hz, 1000);
}

#[test]
fn negative_is_replaced_or_clamped() {
    let a = sanitized(Aim {
        sensitivity: num(-1.0),
        y_scale: num(-2.0),
        decay: num(-0.5),
        max_deflection: num(-1.0),
        deadzone: num(-0.1),
        low_end_boost: num(-0.1),
        invert_y: false,
        tick_hz: 1,
    });
    assert_eq!(val(a.sensitivity), 0.030);
    assert_eq!(val(a.y_scale), 1.0);
    assert_eq!(val(a.decay), 0.0);
    assert_eq!(val(a.max_deflection), 0.0);
    assert_eq!(val(a.deadzone), 0.0);
    assert_eq!(val(a.low_end_boost), 0.0);
    assert_eq!(a.tick_hz, 1);
}

#[test]
fn zero_y_scale_is_replaced_and_a_small_one_clamped() {
    let mut a = Aim::default();
    a.y_scale = num(0.0);
    assert_eq!(val(sanitized(a).y_scale), 1.0);
    a.y_scale = num(-0.0);
    assert_eq!(val(sanitized(a).y_scale), 1.0);
    a.y_scale = num(0.01);
    assert_eq!(val(sanitized(a).y_scale), 0.05);
}

#[test]
fn boost_stays_below_the_deflection() {
    let mut a = Aim::default();
    a.max_deflection = num(0.5);
    a.low_end_boost = num(0.8);
    assert_eq!(val(sanitized(a).low_end_boost), 0.5);
    a.low_end_boost = num(0.4);
    assert_eq!(val(sanitized(a).low_end_boost), 0.4);
}

#[test]
fn known_good_settings_are_kept() {
    let mut a = Aim::default();
    a.sensitivity = num(0.03);
    a.y_scale = num(1.4);
    a.decay = num(0.87);
    a.low_end_boost = num(0.20);
    let once = sanitized(a);
    assert_eq!(once.sensitivity, a.sensitivity);
    assert_eq!(once.y_scale, a.y_scale);
    assert_eq!(once.decay, a.decay);
    assert_eq!(once.low_end_boost, a.low_end_boost);
    assert_eq!(once.max_deflection, a.max_deflection);
}

#[test]
fn sanitizing_twice_is_sanitizing_once() {
    let mut a = Aim::default();
    a.sensitivity = num(-0.0);
    a.decay = num(7.0);
    a.max_deflection = num(0.25);
    a.low_end_boost = num(0.9);
    let once = sanitized(a);
    let twice = sanitized(once);
    assert_eq!(once.sensitivity.bits, (-0.0f32).to_bits());
    assert_eq!(once.sensitivity, twice.sensitivity);
    assert_eq!(once.decay, twice.decay);
    assert_eq!(once.max_deflection, twice.max_deflection);
    assert_eq!(once.low_end_boost, twice.low_end_boost);
}

#[test]
fn an_existing_config_is_sanitized() {
    let mut cfg = Config::default();
    cfg.aim.decay = num(2.0);
    cfg.devices.pad_name = "DualSense".to_string();
    cfg.buttons.side = Control::R1;
    let loaded = Config::load_or_create(ConfigFile::Parsed(cfg)).unwrap_or_else(|_| panic!());
    assert!(!loaded.write_out);
    assert_eq!(val(loaded.config.aim.decay), 0.999);
    assert_eq!(loaded.config.devices.pad_name, "DualSense");
    assert_eq!(loaded.config.buttons.side, Control::R1);
}

#[test]
fn a_missing_config_is_the_default_and_written_out() {
    let loaded = Config::load_or_create(ConfigFile::Missing).unwrap_or_else(|_| panic!());
    assert!(loaded.write_out);
    assert_eq!(val(loaded.config.aim.sensitivity), 0.030);
    assert_eq!(loaded.config.buttons.left_click, Control::R2);
    assert_eq!(loaded.config.devices.mouse_name, "Gaming Mouse");
}

#[test]
fn a_file_that_cannot_be_used_is_an_error() {
    assert!(matches!(Config::load_or_create(ConfigFile::Unreadable), Err(LoadError::Reading)));
    assert!(matches!(Config::load_or_create(ConfigFile::Malformed), Err(LoadError::Parsing)));
}

#[test]
fn xdg_config_home_comes_first() {
    let p = Config::path(Some("/xdg"), Some("/home/u")).unwrap_or_else(|_| panic!());
    assert_eq!(p.base, "/xdg");
    assert_eq!(p.components, vec!["joyclicks", "config.toml"]);
}

#[test]
fn home_is_used_with_dot_config() {
    let p = Config::path(None, Some("/home/u")).unwrap_or_else(|_| panic!());
    assert_eq!(p.base, "/home/u");
    assert_eq!(p.components, vec![".config", "joyclicks", "config.toml"]);
}

#[test]
fn no_home_is_an_error() {
    assert!(matches!(Config::path::<&str>(None, None), Err(NoConfigHome)));
}
