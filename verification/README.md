# nabu_power

Verified decision logic of two companion daemons for the Xiaomi Pad 5
(nabu) running Linux:

* **charge-control** keeps the battery between two thresholds by switching
  the STANDBY_EN / EN_1TO1 bits of the LN8000 charger's `SYS_CTRL` register.
* **screen-toggle** turns the power button and lid switch into display
  controls, with suspend countdowns, wake from keyboards and pointers, and
  panel recovery after resume.

## Layout

* `src/` — the library, verified with Verus:
  * `text.rs` — characters, whitespace, trimming, searching, `lines`,
    `split_whitespace`, integer parsing and decimal writing;
  * `args.rs` — the charging controller's command line;
  * `charge.rs` — threshold rule, register bits, enforcement steps, power
    sources and battery lookup;
  * `command.rs` — command plans and what their completion means;
  * `session.rs` — the graphical session and Mutter (power save, backlight);
  * `input.rs` — `/proc/bus/input/devices`, udev properties, device
    reconciliation;
  * `display.rs` — backlight and DPMS devices, brightness readings,
    charging, kernel panel failures;
  * `screen.rs` — the screen daemon's state and decisions.
* `app/` — the daemons' I/O around the library (I2C, evdev, sysfs,
  processes, signals, logging); one program serving both daemons by name.
* `tests/` — tests of the library on concrete values.
