# more_actors

The verified core of an interactive talk about tokio: a slide deck whose games
let an audience drive a one-shot button, an mpsc buffer, a watched cell, a
broadcast ring, a timer and two `select!` races, each run by an actor on the
server and shown on everybody's phone.

`src/` is written in Verus. Every function there has a contract, proved by the
verifier; what relates several functions is stated as a public proof function
whose name starts with `law_`.

## Layout

    src/
      channels/   tokio's four channels as pure state machines with explicit
                  waiter queues; channels/runs.rs says what holds of them
                  over any run of calls
      sim/        the games, over those channels: commands in, events out,
                  time as an argument; sim/agreement.rs shows that the watch
                  game is a watch channel
      protocol.rs what client and server say to each other
      server/     the actors, the sessions of their sockets, tickets, roles
                  and the control plane
      games/      what the pages make of events, and their texts
      pages/      the pages as state machines
      client.rs   reconnecting, ticket storage, the state of the connection
      clock.rs    wall time as whole milliseconds
      deck.rs     the slides, and moving between them
      highlight.rs, export.rs, text.rs
                  code as markup, the static deck, and strings
    tests/        the library from outside
    app/          the program around it: the web server, the sockets, the
                  markup, blocking channel handles, floating point

## What is not proved

Four items are believed rather than proved. Each carries a comment with what
it claims:

- `text.rs`: `String::push`
- `games/palette.rs`: the ten colours of `colorous`
- `games/qr.rs`: the picture that `qrcode` draws
- `highlight.rs`: the regions that `syntect` finds

The library counts whole milliseconds and takes the time, random bytes and the
environment as arguments. Floating point appears in `app/` alone.
