# serial_port_backend

The verified core of a small web front end for serial ports: select, open and
close a port, show incoming data as ASCII or hex, send ASCII or hex buffers,
keep a capture log and stored send macros.

- `src/` is the library, verified with Verus: the two text forms of a payload
  (`hex`, `serial::format_bytes`, `serial::parse_hex_string`), the serial
  session and its rules (`serial`), what each HTTP endpoint decides once its
  I/O is done (`api`), the rows of the macro and log tables (`db`), and which
  bundled front-end file a request names (`assets`), and what the live stream to a browser does after each event
  (`stream`).
- `app/` is the program around it: the axum server, the WebSocket stream, the
  serial device, the SQLite store and the serde forms of the library's types.
- `tests/` runs the library on concrete values, some of them against the
  standard library's own parsing and formatting.
