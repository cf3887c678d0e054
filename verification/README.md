# blazebee

A Linux system-metrics agent. It reads `/proc` and `/sys` (CPU, memory,
disks, network, sensors, services, ...) at a fixed interval and hands each
collector's reading to a publisher.

- `src/` is the library, verified with Verus: the parsers of every file the
  collectors read, each with a specification of what it returns; the
  collector registry; the readiness states; the step function of the
  collection loop; the configuration model and its defaults; the choice of
  log outputs; and the text helpers they rest on.
- `app/` is the program around it: file and command I/O, the `tracing`
  set-up, the TOML configuration file, the build-time inventory of
  collectors, the async collection loop, and the readings that are decimal
  fractions (load averages, uptime, pressure, sensors, time offsets).
- `tests/` exercises the library on concrete inputs.
