# cth_0_1

The hardware-independent logic of the CTH 0.1 zener-noise entropy source,
verified with Verus.

* `src/entropy/` — SP 800-90B continuous health tests (RCT, APT, start-up),
  the chained HMAC-SHA256 conditioner and HMAC_DRBG (SP 800-90A). HMAC-SHA256
  itself is computed by the `hmac` and `sha2` crates (`src/entropy/mac.rs`).
* `src/drivers/` — the EEPROM calibration record format, the mux gain table
  and gain arithmetic, the DAC bias arithmetic and the state the write-only
  DAC and the mux need kept.
* `src/ui.rs` — what each line of the OLED says.
* `src/pipeline.rs` — the per-sample decisions of the running device and the
  host commands.
* `src/diagnostics.rs` — start-up statistics, bias-sweep scaling, calibration
  fallback and the raw-dump frame layout.
* `app/` — the STM32F103 firmware around the library: board bring-up, pins,
  buses, ADC reads, RTT, logging and drawing.
* `tests/` — tests of the library.
