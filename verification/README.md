# hydra

Sandboxed code execution with a terminal: a server keeps a pool of Docker
containers, each running an agent; clients run programs in them over a
WebSocket, and a public proxy forwards the HTTP and WebSocket traffic of a
session's subdomain to the program inside its container.

- `src/` is the verified library (Verus): the message types, the decisions of
  the server (sessions, the container pool, routing of container messages,
  RPC bookkeeping, the proxy interface, configuration, inactivity shutdown),
  of the proxy (host parsing, server address cache, WebSocket handshake,
  error pages) and of the agent (terminal and connection registry, setup
  plan, forward targets, body reading), with their contracts and laws.
- `app/` is the program around it (`hydra server|proxy|agent`): Docker,
  redis, sockets, HTTP and WebSocket I/O, serialisation.
- `tests/` runs the library on concrete values.
