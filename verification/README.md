# aegishv sensor library

Logic of a host-side hypervisor security sensor, written in Verus: the event
model and its JSON form, configuration parsing and validation, VM identity
resolution and libvirt inventory, Linux guest introspection checks (syscall
table, LSTAR, control registers, kernel hooks, BPF programs, kernel and
module text hashes), detector scheduling and deduplication, policy action
planning with QMP safety checks, metrics and their Prometheus text, and the
records of approvals and audits.

Layout:

- `src/` — the verified library. Every public function states its result
  in `ensures`; laws that span several calls are public proof functions.
- `tests/` — tests run against the compiled library.
- `app/` — the command-line front end: file, directory, socket and `/proc`
  access, the clock, and the QMP socket, handing plain values to the
  library.
