# ambient_air

Verified logic of a battery-powered air-quality sensor: pressure (ICP-20100), CO₂ (STCC4),
VOC (SGP40) and a BQ27441 fuel gauge, with a Bluetooth LE interface and sampling programs that
survive deep sleep.

`src/` is the library, verified with Verus:

- `icp20100` – pressure sensor driver over a blocking I²C bus whose contract records every
  transfer; the driver's contracts state the exact transfers of each operation, and the
  one-time start-up configuration is a step function, with a law on what a whole start-up
  leaves written in the sensor's registers.
- `stcc4` – CO₂ sensor frames: CRC-8, word decoding, command bytes.
- `bq27441` – fuel gauge frames, words and block checksums.
- `sampling` – the 22-byte sample format, the retained sample buffer, stored batches and
  their keys, the sampling program and the chunking of data notifications.
- `long_write` – collecting the fragments of a prepared (long) GATT write.
- `services` – characteristic values: the command buffer, lists of samples, settings written
  over Bluetooth.
- `power`, `commands`, `data`, `leds`, `button`, `voc` – power states and sleep plans, task
  messages and the CO₂ sensor's continuous mode, sensor readings, LED sequences, button
  responses and the retained VOC algorithm state.

`app/` holds what Verus does not check: the asynchronous bus transfers and delays, JSON parsing
of the sampling command, and floating-point conversions. `tests/` runs the library on concrete
values.
