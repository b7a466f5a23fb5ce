# logi-forge

A Linux device manager for Logitech mice and keyboards, with its core
written in Verus: the functions under `src/` carry `requires` / `ensures`
contracts that Verus proves. The exception is a small set of trusted
wrappers (marked `#[verifier::external_body]`) around standard-library and
evdev calls — string trimming and comparison, number parsing, sorting, the
monotonic clock and evdev key and event constants — whose contracts Verus
takes on trust; each states only what the wrapped call's documentation or
source gives.

Layout:

- `src/` — the verified library.
  - `action`, `router`: action labels, their input commands, and routing of
    button events through default bindings and per-application profiles.
  - `config`, `strmap`: the configuration model and its strict validation.
  - `wire`, `client`: HID++ 2.0 framing and the HID++ client (battery, DPI,
    SmartShift, Fn-lock, keyboard lighting, reprogrammable controls). Every
    client operation is specified over the log of exchanges it had with its
    transport.
  - `linux`, `sysfs`, `input`, `capture`, `divert`: evdev label resolution,
    sysfs inventory parsing, injection plans, capture decisions, and the
    media-mode diversion session.
  - `cli`, `agent`: argument handling of the command line and the decisions
    of the resident agent (setting writes, revisions, reapply).
  - `text`, `time`, `error`, `model`: shared text helpers, clock wrappers,
    the error type and device data.
- `tests/` — tests of the library on concrete values, with scripted fake
  transports in place of hardware.
- `app/` — the program around the library: the `logi-forge` command line,
  the resident agent's Unix socket, hidraw and evdev/uinput I/O, sysfs and
  X11 queries, and the TOML form of the configuration.
