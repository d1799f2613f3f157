# JoyClicks

Merge a physical gamepad (left hand) and a mouse (right hand) into a single virtual gamepad on
Linux, so that emulators which accept only one input device per pad get controller movement and
mouse aim at the same time.

Both real devices are grabbed, so the emulator only ever sees the virtual pad. Relative mouse
motion becomes right-stick deflection with a spring-back toward center.

## Default mapping

| Input | Virtual pad |
|---|---|
| Gamepad left stick, D-pad, triggers, buttons | passed through |
| Gamepad right stick | ignored (the mouse owns aim) |
| Mouse motion | right stick |
| Left / right / middle click | R2 / L2 / R3 |
| Side / extra mouse buttons | Cross / Square |
| Wheel up / down | D-pad up / down, held for `tap_ms` |
| PS button | pause: releases the mouse, holds the pad at rest |

The settings are in `~/.config/joyclicks/config.toml`, which is written with defaults on the first
run. `[aim]` is reloaded while running; `[devices]`, `[buttons]` and `tick_hz` need a restart.

## Layout

- `src/` is the library: the rules of the program, verified with Verus.
  - `config`: settings, their defaults and ranges, where the file is, what is made of it
  - `binary32`: comparing and clamping single-precision numbers by their bit patterns
  - `device`: which devices are used, what the virtual pad announces
  - `reader`: what an input event means, when a reader grabs, waits, forwards and stops
  - `session`: what is remembered of the input, what a tick sends
  - `pad`: the state of the virtual pad, and the events that bring it there
  - `stick`: the state of the aim integration
  - `aim`: the decisions of the aim integration: limits, deadzone, low-end boost
  - `timing`, `watcher`: durations in ticks; when the settings are read again
  - `laws`: what holds of a session over any number of messages and ticks
- `app/` is the program: devices, threads, files, and floating-point arithmetic.
- `tests/` runs the library on concrete values.

The calls into `evdev` that the library relies on stand behind small functions marked
`external_body`, in `device` and `reader`; each says above it what is claimed of the call.
