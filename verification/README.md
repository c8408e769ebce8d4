# EdgeFirst NavSat

The logic of a GPS/GNSS node that reads fixes from GPSD and publishes
`sensor_msgs/NavSatFix` messages over Zenoh, written in Verus.

- `src/` is the verified library: the command-line / environment model
  (`args`), the scrubbing of empty environment variables, the Zenoh
  configuration the arguments select (`args`, `config`, `connection`), the
  JSON text of configuration values (`json`), time stamps and the Y2038
  saturation (`navsat`), and message headers (`messages`).
- `app/` is the program around it: clap parsing, GPSD I/O, Zenoh publishing,
  logging and profiling, and the floating-point position fields.
- `tests/` exercises the library.
