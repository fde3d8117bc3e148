# moza_rev

Blue-shift RPM lights for MOZA wheels, driven by Automobilista 2 /
Project CARS 2 UDP telemetry.

- `src/` is the verified library (Verus):
  - `madness`: the telemetry packet format (header, packet type, engine speed
    and rev limit fields).
  - `telemetry::pc2`, `telemetry::engine`, `listeners::madness`: datagrams to
    engine samples and engine states.
  - `led::blue_shift`: LED masks, the progressive bar, and the flash mapper with
    its hysteresis band and blink.
  - `device::moza_led`: the RPM-LED commands a wheel is sent.
  - `shift_light`: the per-tick decisions of the shift-light program (sample
    freshness, colour-table swaps, mask resends and heartbeat).
  - `config`: colour and numeric settings.
- `app/` is the program around it: environment settings, the UDP socket, the
  serial client calls, and the `f32` rev-ratio comparisons.
- `tests/` runs the library on concrete inputs.
