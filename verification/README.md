# game_hub

A small game server and its clients: players log in, chat, and play
tick-tack-toe on boards that the server keeps.

- `src/` is the library, verified with Verus:
  - `plugins` — the kinds of game, and tick-tack-toe: the board, its
    messages and their JSON text, the client's view of a game, and the
    server's record of who plays which piece.
  - `messaging` — the messages between client and server and their JSON
    text.
  - `server` — the hosted games, the users and their logins, and the
    server's answer to each message from a client.
  - `client` — the terminal client's state, and its reactions to keys and to
    messages from the server.
  - `web` — the browser client's engine: its messages and its login
    handshake.
  - `text` — JSON string literals, decimal numbers and a few string
    operations.
- `app/` holds the programs around it: the server's TCP, websocket and HTTP
  listeners, the terminal client, the browser client's bindings, and the
  `serde` copies of the message types that read JSON text back into
  messages.
- `tests/` runs the library on concrete values.
