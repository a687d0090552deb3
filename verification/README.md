# chromebook_charge

Tools that manage battery charging on a Chromebook through the embedded
controller (`ectool`).

- `src/` is the verified library: the parsers for what `ectool` prints
  (`battery`, `hello`, `chargecontrol`), the argument lists handed to it, the
  reading of the charge settings file, the small `/sys` file readers, and the
  decision steps of the search for the lowest charge current that still
  charges the battery.
- `app/` holds the programs: process spawning, file and D-Bus access, timing,
  and the floating-point arithmetic, all of which hand plain values to the
  library.
- `tests/` exercises the library on concrete inputs.
