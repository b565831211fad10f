# vibesentinel

Verified core of an edge vibration monitor: a three-axis accelerometer is
sampled at 200 Hz, cut into 128-sample windows, turned into a feature vector
and scored by a small autoencoder; a high reconstruction error lights an LED
and is logged with structured error codes (E001–E010).

`src/` holds the integer logic of that pipeline, with Verus contracts and
proofs:

- `config` — shared dimensions and sampling constants;
- `window` — the three-axis sample window (`SlidingWindow`) and its laws
  (full exactly every 128 pushes, samples kept in order);
- `timing` — per-period window-processing statistics (`TimingStats`);
- `debug` — error counters, anomaly sessions and the health report of the
  diagnostics log (`DiagnosticLogger`), on microsecond clock readings
  supplied by the caller;
- `imu` — LSM6DS3 range configuration, decoding of raw readings, saturation
  detection and the consecutive-error count behind bus recovery;
- `dataset` — start offsets of half-overlapping training windows, the
  random generator of the synthetic data, and weight-matrix transposition;
- `firmware` — sample pacing and watchdog feeding of the main loop.

`app/` is ordinary Rust: the floating-point feature extraction, inference and
training (with Burn), CSV loading, and the ESP32-S3 firmware, which builds
only for that target.
