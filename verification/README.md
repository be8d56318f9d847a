# smarthy

The decision logic of a small home-automation engine for Shelly devices that
connect over websockets and report their status as JSON notifications. The
library is written in Verus and its functions carry proved contracts.

- `src/` — the verified library:
  - `text` — character-by-character prefix test on strings;
  - `message` — notifications and their `params` object, and how temperature
    sensors, switches and inputs are read from it by key prefix, with the laws
    that a key names at most one kind of component and that a `params` object
    naming each key once yields components keyed once, and that a field without
    a kind's prefix never changes the components of that kind;
  - `device` — the device model built from what a device reports, and the steps
    of the tasks that read from and write to a device's connection;
  - `ws` — reading JSON text, and what the server makes of the first frame of
    a new connection;
  - `switch` — the steps of a switch that polls a device and that serves its
    query to connected devices;
  - `error`, `config` — error types with their texts, configuration types.
- `app/` — the program around it: command line, configuration file, logging,
  the websocket server and its tasks, and the JSON forms of the library's types.
- `tests/` — tests of the library on concrete values.
