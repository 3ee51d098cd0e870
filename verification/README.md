# sensor_modbus

A Modbus/TCP gateway for 1-Wire thermometers on an ESP32, with its decision
logic proved correct against its contracts.

- `src/registers.rs`: which thermometers a Modbus "read input registers"
  request names, the exceptions it is refused with, and how each 32-bit
  reading is laid out over two input registers (high half first).
- `src/sensors.rs`: the registry of discovered thermometers, ordered by their
  1-Wire address with a verified stable sort, and the selection of a run of
  thermometers.
- `src/wifi.rs`: the station's shared state, the text form of its MAC
  address, and the state machine of the loop that keeps it connected.
- `app/`: the firmware around the library: ESP-IDF drivers, the Wi-Fi
  driver, the thermometer driver, the `tokio_modbus` server and the tokio
  runtime. It performs each step the library hands out and reports the
  outcome back.
