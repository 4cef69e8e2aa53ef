# framework_crate

Fan, battery and telemetry control for Framework laptops, with its core
logic verified by Verus.

## Layout

- `src/` — the verified library.
  - `fan_control.rs`: curve interpolation, rate limiting, the hysteresis
    curve stepper, and the laws they obey.
  - `types.rs`: the configuration, its validation (and idempotence), the
    control temperature, the full curve, sensor ordering and the stable
    sort of curve points for saving.
  - `config_update.rs`: how each setting changed in the interface updates
    the configuration.
  - `config_save_task.rs`: when the battery charge limit must be re-applied.
  - `background.rs`: the decisions of the polling loop: intervals, fan
    speed baseline, the fan ramps carried between polls (mode changes, the
    manual ramp, the curve duty to write), re-asserts, when a reading is
    stored, the poll step (read failures, client recreation and the
    curve-mode fail-safe that hands fan control to the firmware at most once
    per interval), PD port history and USB-C markers.
  - `temp_chart.rs`: the temperature history with its retention window and
    publish interval.
  - `cli/`: decoding of embedded-controller data (temperatures, fans,
    battery, firmware versions, PD ports, board ID), number formatting, and
    the order of sensor names that keys the temperature readings.
  - `cpu_power.rs`: the bit layout of the package power limit registers.
  - `icon.rs`: the ICO file format (building, DIB payloads, image lookup).
  - `system_info.rs`, `ui_state.rs`, `tray/`, `sub_state.rs`: the window
    header, the interaction state machine, the tray pump decisions and the
    peripheral snapshot.
- `tests/` — tests of the library.
- `app/` — the program around it: configuration file I/O, the EC client
  (framework_lib), the clocks, the async polling loop and the floating-point
  conversions (CPU power limits, battery health).
