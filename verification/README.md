# camera

Intent-driven camera capture: backend selection, capture negotiation, device
identity, native frame description and consumer-side RGB conversion, with
every decision and conversion stated as a contract and proved with Verus.

## Layout

- `src/` — the verified library.
  - `platform`, `ids`, `backends/mod.rs` — build targets, backend identifiers
    and which backends a build offers.
  - `api` — backend policy, the camera system and its builder, device
    enumeration and selection, capture planning and start options.
  - `negotiation`, `rate`, `session` — capture requests, exact frame-rate
    arithmetic, ranking of driver modes, checks of negotiated and recovered
    captures and the reconnect state machine.
  - `format`, `color`, `convert` — pixel formats, YCbCr coefficients and the
    conversion kernels into packed RGB.
  - `device`, `text`, `controls`, `error` — device identity, text helpers,
    camera controls and structured errors with stable codes and their
    context (backend, device, stage, operation, native code).
  - `backends/*` — per-backend logic (V4L2, UVC, AVFoundation, Camera2, Media
    Foundation) taken apart from the platform calls: descriptor and format
    tables, frame layouts, buffer decoding and device matching.
  - `android`, `blocking` — the Android bridge's decisions and the blocking
    facade.
- `tests/` — executable tests of the library.
- `app/` — unverified glue: build-target detection, JPEG decoding through
  libjpeg-turbo, floating-point frame-rate ranges, the loops that start a
  capture and deliver frames around the library's step functions, and
  displayable errors and JSON payloads.

The library uses no trusted items: every function in `src/` is verified.
Platform I/O (device handles, callbacks, threads, the JVM) stays outside it
and hands the library plain values.
