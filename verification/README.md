# battery_ha_bridge

Exposes batteries, BMSes and power stations to Home Assistant via MQTT Discovery.

`src/` is the logic of the bridge, verified with Verus:

| Module | What it holds |
|--------|---------------|
| `text`, `json` | decimal numbers, joining, JSON values and the calls into `serde_json` |
| `reading`, `double` | measured values, their rounding to three decimals, and the double that is nearest |
| `slug` | identifiers that are safe in topics and object ids |
| `status` | what a battery reports about itself |
| `state`, `state_laws` | the state document, and what holds of every one |
| `discovery`, `discovery_laws`, `identity_laws`, `coverage_laws` | the discovery configs, and what holds of every one |
| `command` | incoming messages: commands and Home Assistant restarts |
| `session`, `session_laws` | the life of one connected device, and what holds of every one |
| `registry`, `bridge` | the connected devices, and the bridge as a whole |

`app/` is the program around it: arguments, the MQTT client, scanning and polling with
`battery_control`. `tests/` runs the library.

## Topics

| Topic | Direction | Payload |
|-------|-----------|---------|
| `<base>/<dev>/state` | publish | flattened JSON status |
| `<base>/<dev>/availability` | publish | `online` / `offline` |
| `<base>/bridge/availability` | publish (last will) | `online` / `offline` |
| `<base>/<dev>/set/<id>` | subscribe | `ON` / `OFF` |
| `<base>/<dev>/setv/<id>` | subscribe | value |
| `<prefix>/<component>/bc_<dev>/<key>/config` | publish | discovery config |
| `<prefix>/status` | subscribe | `online` when Home Assistant restarts |

A reading enters the library as the bit pattern of a single-precision number, so that its
rounding is exact integer arithmetic. The rounded decimal becomes a JSON number through
`serde_json`, built with `float_roundtrip` so that the nearest double is read.
