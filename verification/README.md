# lode-stm32h723

Firmware logic for a NUCLEO-H723ZG weather node: a BME280 sensor read over I2C, an
SSD1306 128x64 OLED, status LEDs and an HTTPS upload of each reading. The logic is
written in Verus and proved against its contracts; the firmware around it performs
the I2C transfers, the network I/O and the timers.

Layout:

- `src/bme280.rs` - sensor driver: initialisation state machine (chip id check, reset,
  status polling, calibration read, configuration), calibration decoding, and the
  datasheet's integer compensation of temperature, pressure and humidity.
- `src/ssd1306.rs` - display driver: framebuffer, pixel and text drawing over a pixel
  model, and the command sequences for initialisation and flushing.
- `src/font.rs` - 5x7 font for ASCII 0x20..=0x7E.
- `src/patterns.rs` - test patterns for a freshly wired panel, and the frames of the
  display bring-up test.
- `src/leds.rs` - the LED controller: what each board state shows, and its transitions.
- `src/http.rs` - the JSON body of an upload, built in a `heapless::String<128>`.
- `src/firmware.rs` - the main task's decisions: watchdog from start-up, the start-up DNS
  lookup with its retries, the LED state to signal and the pauses.
- `src/dns.rs`, `src/presence.rs` - decisions of the resolve loop and of the radar task.
- `app/` - the firmware: tasks, bus transfers, network stack, HTTPS client, and the
  bring-up checks (LED blink, display frames, sensor read loop).
- `tests/` - tests of the library on concrete values.
