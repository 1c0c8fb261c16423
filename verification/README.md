# zwave

Small command line client for a Z-Wave JS Server websocket endpoint, with its logic verified by
Verus.

The default endpoint is `ws://zwave-api.localdomain/`. Override it with `--url` or `ZWAVE_WS_URL`.

```bash
zwave status
zwave nodes
zwave nodes --dead
zwave dead
zwave ping 27
zwave is-failed 4
zwave remove-failed 4
zwave rebuild-routes
```

Use `--json` to print raw API responses where available.

## Layout

- `src/` is the verified library.
  - `json`, `codec`: JSON values, and their text through `serde_json`.
  - `text`, `counts`: numbers, columns and counts as text.
  - `nodes`, `controller`, `events`: what is shown of nodes, of the controller and of inclusion.
  - `failure`, `protocol`: messages to and from the server.
  - `run`: one run of the client as a state machine.
  - `laws`: what holds of every run and of everything that is shown.
- `app/` connects, sends, receives and prints as the state machine says.
- `tests/` runs the library on examples.
