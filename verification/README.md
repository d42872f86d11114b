# lm-sensors-web

Hardware sensor monitoring: readings from Linux `libsensors` served over a
REST API, a WebSocket live feed and webhooks, with systemd service
management from the command line.

## Layout

- `src/` — the library, verified with Verus: the command-line grammar,
  configuration defaults and overrides, the sensor data model, webhook
  trigger decisions, the CORS policy, HTTP replies, WebSocket feed decisions
  and the systemd unit file and `systemctl` command lines. Each public
  function carries a contract; laws that relate several functions are proof
  functions next to them.
- `app/` — the program around the library: argument handling, JSON (serde)
  copies of the data types, `libsensors` access, the axum HTTP server, the
  WebSocket broadcast, webhook delivery with reqwest, and running `systemctl`.
- `tests/` — tests of the library.

## Units

Sensor values and temperature thresholds are fixed-point integers in
millionths of their unit (80 °C is `80_000_000`), rounded to the nearest
millionth and within the range of `i64`; the JSON interface shows
them as plain numbers.
