# libairspy_rs

A driver library for the Airspy R2 / Mini software-defined radio
receivers and the logic of its command-line tools, written in Verus:
every function in `src/` carries a contract that Verus proves.

- `src/` — the verified library: wire constants and enums
  (`commands`), the vendor requests of the control surface
  (`control`, `transfer`), board and device identity (`board`,
  `device`), errors (`error`), sample conversion (`conversion`,
  `iqconverter_int16`, `filters`), the streaming bookkeeping
  (`stream`), and the tools' logic (`cli`, `options`, `rx`, `rx_cli`, `wav`,
  `gpio_cli`, `reg_cli`, `flash_cli`, `calib_cli`, `text`).
- `tests/` — the test suite, run against the compiled library.
- `app/` — the program around the library: USB I/O over `rusb`, the
  streaming threads, the floating-point conversions, `clap` command
  lines, and the tools' `main` (`airspy_rx`, `airspy_info`,
  `airspy_gpio`, `airspy_gpiodir`, `airspy_si5351c`, `airspy_r820t`,
  `airspy_spiflash`, `airspy_calibrate`).
