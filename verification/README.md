# livekit_portal

Teleoperation over a LiveKit room. A robot publishes video tracks and states; operators
receive observations, that is states with the frames that belong to them, and one operator at
a time sends actions back. Observers only watch, and can hand control over.

- `src/` is the library: configuration, wire formats, the observation sync, clock alignment,
  control hand-over, metrics and the portal that ties them together. Verus proves its
  functions against their contracts; `law_` functions state what holds across several. The ten
  wrappers around `image`, `bytes` and the standard library are believed, not proved; each
  says what it claims.
- `tests/` runs the library on concrete values.
- `app/` puts it to work: the LiveKit room, YAML files, JSON keypoints and the surface for
  other languages.

Floating-point numbers stand in the library as their bit patterns; `src/ieee.rs` says what the
patterns mean.
