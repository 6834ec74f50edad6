# scape

The window-management core of the scape Wayland compositor, written in Verus.

- `src/` is the verified library: window placement and zones, focus
  cycling, key-binding actions, interactive resize limits, cursor frame
  selection and animation, render-scheduling decisions, output layout,
  DRM lease decisions, start-up readiness and shutdown sequencing, and the
  small computations of the screencopy and PipeWire protocols. Each public
  function states its result in `ensures`; the laws that relate several
  functions are public proof functions next to them.
- `app/` is the unverified runtime around it: worker threads and the main
  event loop, the configuration watcher, cursor themes read from disk, the
  environment, and the floating-point pointer and output arithmetic.
- `tests/` runs the library on concrete values.
