//! Durations in ticks: how long a tick is, how long a wheel tap is held, and how long the
//! low-end boost outlasts the last mouse movement.

use crate::config::Config;
use vstd::prelude::*;

verus! {

/// How long after the last mouse movement the low-end boost keeps applying, in milliseconds.
pub const BOOST_HOLD_MS: u64 = 60;

/// The larger of the two.
pub open spec fn larger(a: int, b: int) -> int {
    if a >= b {
        a
    } else {
        b
    }
}

/// The durations that a configuration fixes at startup.
#[derive(Debug, Clone, Copy, PartialEq, Eq, Structural)]
pub struct Timing {
    pub tick_micros: u64,
    pub tap_ticks: u64,
    pub boost_hold_ticks: u64,
}

impl Timing {
    /// The durations for this configuration. A tap and the boost last at least one tick.
    pub fn new(cfg: &Config) -> (r: Timing)
        ensures
            r.tick_micros as int == 1_000_000int / larger(cfg.aim.tick_hz as int, 1),
            r.tap_ticks as int == larger(
                (cfg.buttons.tap_ms as int) * (cfg.aim.tick_hz as int) / 1000,
                1,
            ),
            r.boost_hold_ticks as int == larger(
                (BOOST_HOLD_MS as int) * (cfg.aim.tick_hz as int) / 1000,
                1,
            ),
            // All the ticks of a second fit into it, and no longer tick would do.
            cfg.aim.tick_hz > 0 ==> r.tick_micros * cfg.aim.tick_hz <= 1_000_000 < (r.tick_micros
                + 1) * cfg.aim.tick_hz,
            // A tap lasts what the setting says, short of it by less than a tick, and a tick at
            // least; so does the boost with its 60 ms.
            r.tap_ticks >= 1 && r.boost_hold_ticks >= 1,
            cfg.buttons.tap_ms * cfg.aim.tick_hz < (r.tap_ticks + 1) * 1000,
            r.tap_ticks > 1 ==> r.tap_ticks * 1000 <= cfg.buttons.tap_ms * cfg.aim.tick_hz,
            60 * cfg.aim.tick_hz < (r.boost_hold_ticks + 1) * 1000,
            r.boost_hold_ticks > 1 ==> r.boost_hold_ticks * 1000 <= 60 * cfg.aim.tick_hz,
    {
        let hz: u64 = cfg.aim.tick_hz as u64;
        let tap_ms: u64 = cfg.buttons.tap_ms as u64;
        let divisor: u64 = if hz >= 1 {
            hz
        } else {
            1
        };
        assert(0 <= tap_ms * hz <= 0xffff_ffff * 0xffff_ffff) by (nonlinear_arith)
            requires
                0 <= tap_ms <= 0xffff_ffff,
                0 <= hz <= 0xffff_ffff,
        ;
        let tap: u64 = tap_ms * hz / 1000;
        let tick: u64 = 1_000_000 / divisor;
        assert(tick * divisor <= 1_000_000 < (tick + 1) * divisor) by (nonlinear_arith)
            requires
                divisor > 0,
                tick == 1_000_000u64 / divisor,
        ;
        let hold: u64 = BOOST_HOLD_MS * hz / 1000;
        Timing {
            tick_micros: tick,
            tap_ticks: if tap >= 1 {
                tap
            } else {
                1
            },
            boost_hold_ticks: if hold >= 1 {
                hold
            } else {
                1
            },
        }
    }
}

/// How long to wait for input before the next tick is due: nothing is left once a tick's time
/// has passed since the last one.
pub fn time_to_tick(elapsed_nanos: u128, tick_nanos: u128) -> (r: Option<u128>)
    ensures
        r is None <==> elapsed_nanos >= tick_nanos,
        r matches Some(left) ==> left > 0 && elapsed_nanos + left == tick_nanos,
{
    if elapsed_nanos >= tick_nanos {
        None
    } else {
        Some(tick_nanos - elapsed_nanos)
    }
}

} // verus!
