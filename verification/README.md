# relay_board

Firmware logic of an ESP32 relay board: a status LED, a Modbus TCP server for
two relay coils, and a bus of temperature sensors.

- `src/` is the verified library (Verus):
  - `led.rs`: colours, the range check of an HSV colour, the 24-bit frame
    sent to the addressable LED, and the LED task as a state machine (greeting,
    then an endless rainbow).
  - `modbus.rs`: the answer of the relay service to each Modbus request and
    the LED flashes that go with it.
  - `temperature.rs`: the stable order of the sensors by bus address, the
    planning of a reading request, and the mapping of its errors to Modbus
    exceptions.
- `app/` is the firmware around it: Wi-Fi, the RMT driver of the LED, the
  HSV to RGB conversion (floating point), the Modbus TCP server, GPIO and the
  sensor bus.
- `tests/` runs the library on concrete values.
