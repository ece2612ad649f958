# blonkenrust

Firmware logic for a six-digit RGB 16-segment clock on an ESP32-C3, verified
with Verus.

- `src/` is the verified library: HSB colour conversion (`color`), the
  segment font (`font`), the SPI frame layout (`digitus16`), the ambient-light
  filter (`light_sensor`), the button debouncer (`button`), the DS18B20
  CRC and read-out (`crc`, `temperature`, `onewire`), the display loop's
  decisions (`app`) and the standalone rainbow loop (`demo`).
- `app/` is the firmware around it: GPIO, SPI, ADC and 1-Wire drivers from
  `esp-idf-hal`, and `main`.
- `tests/` exercise the library on concrete values.
