# m5nanoc6

The logic of a room watchdog on the M5Stack NanoC6 Dev Kit (ESP32-C6), written in Rust and proved
with Verus. The device polls temperature, humidity and pressure from an ENV-Pro (BME688) unit and
pushes a Telegram alarm the moment the room goes cold.

- `src/` is the library: alarm thresholds and the heartbeat schedule (`app`), the outbox and the
  delivery rules (`telegram`), the Bot API requests (`bot`), the Wi-Fi station and its sweeps
  (`wifi`), LED patterns and frames (`led`), the sensor and the button (`env_pro`, `button`), the
  event types and the one-message slot (`events`), settings (`config`), and what these share
  (`text`, `time`). Functions named `law_...` state what holds across several of them.
- `app/` is the firmware round it: it owns the peripherals, waits, and asks the library what to do.
- `tests/` runs the library on concrete values.

Temperatures are floating-point numbers on the device. The library holds one as the bits it is
compared by and the text it is quoted in; parsing, adding and printing them is up to `app/`.
