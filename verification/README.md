# vproxy

An HTTP/3 CONNECT-UDP (MASQUE) proxy whose protocol core is verified with Verus.

A client opens a QUIC connection, asks for a tunnel to a host and a port, and exchanges UDP
payloads with that target through HTTP datagrams or, where it takes none, through capsules on
its request stream.

- `src/` is the library. It decides and frames; it does no input or output. Its contracts say
  what each function returns, and its public proof functions state what holds of the library
  as a whole.
  - `varint`, `capsule`, `datagram`: the framing of payloads.
  - `text`, `auth`, `request`, `response`: what a request says, who sends it, how it is answered.
  - `setup`, `relay`, `tunnel`, `session`, `connection`, `server`: what is done about each event
    in the life of a request, a tunnel, a connection and the server.
  - `cli`: the command line and its domain list.
  - `buffer`, `outside`, `endpoint`: what is taken on trust of the crates that the library
    calls.
- `app/` is the program around it: sockets, tasks, timers, files and the command line parser.
- `tests/` runs the library on concrete values.
