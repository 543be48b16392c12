# reliable_udp

Stop-and-wait delivery of text messages over UDP, with a proxy that drops
and delays datagrams at random to exercise retransmission.

- `src/` is the verified library (Verus): command-line checks (`args`,
  `client`, `proxy`, `server`), decimal text (`text`), the datagram format
  (`wire`), the client's and server's per-datagram decisions, the proxy's
  routing and random fate, and properties of client and server together
  (`protocol`).
- `app/` is the program around it: the first argument picks the role
  (`client`, `proxy` or `server`); it reads the command line with clap,
  owns the sockets, timers, terminal and log files, and performs what the
  library decides.
- `tests/` runs the library on concrete values.
