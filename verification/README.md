# pybun

The verified core of PyBun, a package manager and runtime for Python
projects, written in Verus.

- `src/` is the library. Every function in it is verified against its
  contract: cache layout and LRU garbage collection, size parsing and
  formatting, the OSV audit rules, download retry and checksum policy, the
  detection of JSON help requests, package-spec and shard parsing, test
  selection and sharding, snapshot normalisation, project scaffolding text,
  build-cache keys, the diagnostics the commands report, and the decisions
  of the larger commands: the plans of `pybun run`, `pybun test` and
  `pybun watch`, the steps of `pybun install`, the requirements of
  `pybun upgrade`, the `pybun doctor` report, command routing and the
  errors the dispatchers add. Calls into
  `sha2`, `hex`, `dirs` and a few std functions go through small trusted
  wrappers whose contracts say what the call returns.
- `tests/` runs the library on concrete inputs.
- `app/` is a small `pybun` program around the library: argument parsing
  and JSON help with clap, file-system walking, HTTP with reqwest and tokio,
  and terminal I/O. Of the commands, only `gc`, `init` and `doctor` run;
  the others answer that this binary does not support them.
