# badge

Firmware core of an e-paper name badge: an ESP32-C6 board driving a 4.2"
400x300 SSD1683 panel (mono or black/white/red) whose framebuffer lives in a
23K256 serial SRAM on the same SPI bus, plus an RGB LED and a BLE command
channel from a phone app.

- `src/` is the verified library. The drivers never touch hardware
  themselves: every operation returns the list of bus operations it needs
  (`bus::BusOp`: pin levels, SPI writes and transactions, delays, BUSY
  waits), and framebuffer operations take the outcome of running them back
  through a `_done` method. Contracts state the exact bytes on the wire and
  the resulting cache state; proof functions relate them to a model of the
  SRAM (what a read gives back of a write, what a flush streams to the panel).
  Running a list of operations (in order, stopping at the first failure and
  returning its error) is the verified `bus::BusRun` state machine.
- `app/` runs those operations on `embedded-hal` devices, drives the drawing
  plans, offers `embedded-graphics` drawing targets, holds the rkyv wire
  types of the BLE protocol and the trouble-host GATT server, sends LED
  frames and builds a phone's device list from its scan results.
- `tests/` exercise the library against simulated SRAM and panel.
