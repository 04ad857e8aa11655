# rmk_dongle

Verified core of an ESP32-S3 keyboard dongle firmware (RMK) with a JD9853
172×320 SPI LCD.

- `src/` (Verus): the library.
  - `bus`: bus operations (CS, D/C, SPI writes) and a model of what the
    controller receives; a command with its parameters is one transaction.
  - `jd9853`: the display driver. It queues the exact bus operations for
    windows, solid fills, pixels and clipped rectangles; the laws state what
    the controller receives for each.
  - `panel`: panel geometry, the power-up command table, the power-up
    steps (reset pulse, commands with their pauses, backlight last) and the
    self-test steps.
  - `panel_ram`: a model of the controller's window registers and display
    memory; the laws say which pixels `fill_rect`, `fill_solid`,
    `draw_pixel` and `draw_iter` colour.
  - `color`: RGB565 packing (through embedded-graphics).
  - `usb`: boot keyboard reports and the keep-alive keystroke schedule.
  - `flash_probe`: the flash smoke test's sector and read-back verdict.
  - `assets`: sprite frame layout.
- `app/`: the firmware around it: pins, SPI, timers, RMK, the
  embedded-graphics `DrawTarget` that plays the driver's queue.
- `tests/`: concrete checks of the library.
