# tcp_tunnel

Carries a TCP conversation over a second channel: a helper process's
standard streams, a websocket, or HTTP polling.

- `src/` is the verified library: line framing with base64 (`codec`), the
  channel-backed streams (`stream`), the treatment of websocket messages
  (`websocket`, `subprocess`, `commu_client_webterminal`), the HTTP polling
  exchange (`commu_client_securecrt`), and the command line (`cli`).
- `app/` is the program: sockets, processes, tasks and logging around the
  library.
