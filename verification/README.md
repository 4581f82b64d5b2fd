# termigame_pong — a quiz played in the terminal over a LAN

`gt server` hosts a five-question quiz on UDP port 9999; `gt client` joins it.

- `src/` is the verified library:
  - `game` — the protocol's messages, questions and game state;
  - `questions` — the question bank;
  - `server` — the server's state machine (`QuizServer::handle`), specified by `step`;
  - `server_laws` — properties of `step` proved for every state and datagram;
  - `client` — what a typed line sends and what a server message shows;
  - `renderer` — the text of every screen;
  - `frame` — length-prefixed framing of messages on a stream (the UDP
    client and server send one message per datagram, so `app/` does not use it);
  - `input` — keyboard helpers.
- `app/` holds the sockets, the threads, the terminal and the bincode encoding.
  `terminal::start_input`, a key-by-key reader, is kept for callers that want
  single keys; the client reads whole lines.
- `tests/` runs the library on concrete games and screens.
