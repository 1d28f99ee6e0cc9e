# Sable

The verified core of Sable, a Windows gaming overlay and performance
toolkit: the service that aggregates GPU, CPU and ETW frame telemetry, the
in-game HUD, and reversible Windows "presets".

- `src/` is the library, verified with Verus. Each module states its
  behaviour in `requires`/`ensures` over mathematical models (`Seq`, `Map`,
  `int`), and the properties that span several functions are public proof
  functions (`lemma_*`): GUID text round-trips, framed pipe messages read
  back, a rollback restores every setting a preset touched once the
  snapshot has read those settings (also after an apply that stopped at a
  failed write), a frame buffer keeps the latest frames in order,
  de-duplication keeps exactly one game per executable path, the
  bottleneck report's shape, and the service's preset flags and benchmark
  bookkeeping. Presets of Medium or High risk are
  applied only with an explicit confirmation.
- `tests/` runs the library on concrete values.
- `app/` is the Windows program around it: `sable service` (ETW, DXGI,
  NVAPI and PDH counters, the registry, the named pipe), `sable overlay`
  (the GDI HUD) and `sable client` (the bridge the desktop UI talks
  through). Floating-point statistics and thresholds live there too.
