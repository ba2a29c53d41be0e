# null_terminal

A chat for the terminal: a server with rooms, a client with a screen of its own, and the
rules of both as a verified library.

- `src/` is the library. Every function states what it returns or changes, and Verus proves
  it. The modules `*_laws` hold what is true of several functions together.
- `app/` is the program around it: the network, the disk, the sound card, the screen.
- `tests/` runs the library on concrete values.

The server side is `hub` (rooms and people), `store` (uploaded files), `session` (the talk
with one socket) and `host` (a server within the client). The client side is `state` and
`update`: a state and something that happened give the next state and what has to be done
outside; `address` reads what was typed as a server. `feed`, `talk`, `front`, `help` and
`overlay` lay out what is seen, in the terms of `paper` and `frame`.

Colours that are mixed, moving gradients and the fitting of pictures are floating-point
work and stay in `app/`.
