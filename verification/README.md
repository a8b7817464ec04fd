# app_builder

A build server's core, verified with Verus.

`src/` is the verified library:

- `text`, `strmap`: character-level string helpers and a string map with a `Map` view.
- `placeholders`: filling `{name}` placeholders in command templates.
- `output`: splitting a command's stdout/stderr bytes into log lines and extracted
  `KEY=value` pairs (independent of how the streams are chunked).
- `builds`, `model`: build records, payload extraction, report payload, step bookkeeping.
- `registry`, `notification`: the notification scheduler's state (one notification per
  group/id slot) and its request, scheduling and dispatch decisions.
- `command`, `socket`: admission and planning for the setup-command endpoint and the
  build-output websocket.
- `cert`: the TLS certificate cache and the order in which a handshake's key is found.
- `delivery`: when reports and notices to the other server are sent again.
- `settings`, `utils`: configuration defaults, tokens and path confinement.

`app/` is the server around it (actix-web routes, processes, timers, HTTP, files, TLS);
`tests/` exercises the library.
