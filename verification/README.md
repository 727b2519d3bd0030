# netdiag

Network diagnosis for Android and Linux: what the kernel's tables, a few probes
and the Android framework say about a device's connectivity, and what follows
from it.

- `src/` is the library. It decides: it reads messages, tables and answers, runs
  the checks and the rules over them, keeps the state of a session, a capture and
  a subscription, and words what is shown. Every function has a contract that
  Verus proves.
- `app/` is the daemon around it: sockets, files, netlink and the tasks of the
  runtime.
- `tests/` runs the library on concrete values.

Modules of the library:

| module | what it holds |
|---|---|
| `text`, `textmap`, `seqs`, `wire`, `ip`, `ip_parse`, `util` | texts, ordered maps of texts, sequences, byte orders, addresses, Android's marks |
| `proto` | the messages |
| `collect` | links, addresses, routes, rules, neighbours, sockets, firewall and /proc as messages |
| `correlate`, `snapshot` | one app from its uid to its interface; everything at once |
| `probe` | DNS, ICMP, path MTU, TCP and TLS probes, without their sockets |
| `diag` | the checks, the rules that interpret them, the report, and the run of a diagnosis |
| `capture`, `watch`, `streams` | packets, events, and what a subscription sends |
| `codec`, `ipc`, `daemon`, `cli` | frames, sessions, who may connect, requests, arguments |
| `ui`, `format`, `view`, `app`, `platform` | what the screens show |
