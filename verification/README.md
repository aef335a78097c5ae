# execguard

A process-execution policy engine with verified logic. The library scores an `execve`
event against four rules (banned binary, execution from `/tmp/` by a non-root user,
process name that differs from the executed file, reverse-shell pattern), caps the score
at 10 and produces one alert per rule that fires.

- `src/policy.rs`: events, alerts, the rules and their laws.
- `src/text.rs`: NUL-terminated buffers, lossy UTF-8 decoding, substring search, trimming.
- `src/record.rs`: decoding of the kernel probe's ring-buffer records.
- `src/host.rs`: what the host answers the sandboxed policy module.
- `src/heap.rs`: bookkeeping of the policy module's bump allocator.
- `app/`: the agent (eBPF loading, Wasmtime sandbox, printing), the standalone loader, and
  the module and probe entry points for the `wasm32` and `bpf` targets.
