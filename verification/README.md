# sfy

The verified core of the small friendly buoy and its data server, written in
Verus.

- `src/` is the library, verified by Verus: the layout of packages and
  collection files on the SD card, the sample buffers of the IMU and the
  external GPS, the decisions of the main loop and of the notecard protocol,
  and the pure parts of the data server (event keys, posted events, file names). Calls into outside crates (heapless,
  base64, serde_json, chrono, percent-encoding, sanitize-filename) stand
  behind small trusted wrappers: their contracts restate what those crates
  do and are believed, not proved.
- `tests/` exercises the library on concrete values.
- `app/` is ordinary Rust around the library: the floating-point scaling of
  sensor values, the Welch spectrum, serialization with serde.
