# ht16k33

Types of the HT16K33 LED matrix controller's command set, and a mock of its I2C interface that
models the display RAM, with their behaviour stated in contracts and proved.

- `src/types/`: dimming level, display and oscillator states (with their command bytes), display
  RAM addresses and data, and LED locations.
- `src/i2c_mock.rs`: the display RAM mock. Its writes and reads wrap around after the last row;
  `lemma_write_then_read_back` proves that what is written reads back unchanged.
- `app/`: the `embedded-hal` `I2c` implementation of the mock (with its `log` messages) and the `bitflags` form of the
  display data, both converting to and from the library's types.
