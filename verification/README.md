# conmonrs

A pod-level OCI container runtime monitor, written as a Verus library whose
decisions are proved against their contracts.

- `src/` is the verified library. Each module holds one concern of the
  monitor: the CRI and JSON log formats (`cri_log`, `json_log`), the attach
  protocol (`attach`), the file descriptor socket (`fd_socket`), the runtime
  command lines (`runtime_args`), the registry of watched processes and their
  exit codes (`child`), out-of-memory detection (`oom`), the streaming server's
  sessions and frames (`streaming`), the pause process (`pause`), and smaller
  pieces. Functions that need the operating system take what it answered as
  arguments and hand back what to do next.
- `tests/` runs the library on concrete values.
- `app/` is the binary: it parses the command line, prints the version, and
  prepares the runtime directory as the library decides.
