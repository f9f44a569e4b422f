# panoptes

Building blocks of the Panoptes monitoring daemons, with their behaviour
stated in `requires`/`ensures` contracts and proved with Verus.

## Layout

- `src/` — the verified library:
  - `notify`: inotify event correlation (rename pairing by cookie, proxy
    watches for paths that do not exist yet, overflow recovery, pause and
    resume) kept by `Watcher`, which records what the kernel calls returned;
  - `service`, `service_v1`, `session`, `metrics`, `stream_filter`: the watch
    services' decisions (admission, updates, wire events, metrics responses,
    stream filters) over a session registry;
  - `runtime`, `paths`, `procfs`, `environment`, `capabilities`, `limits`,
    `startup`: container runtime resolution, `/proc` parsing, and the
    checks run before the daemon serves;
  - `kernel`, `ebpf`, `ebpf_types`: the computations of the kernel-side
    probes (path assembly, command lines, the two-stage path filter) and the
    records they emit;
  - `glog`, `errors`, `text`, `pathname`, `assoc`, `timing`: line formatting,
    error messages, text and path helpers, association lists, clock access.
- `tests/` — tests run against the compiled library.
- `app/` — the `argusd` executable: host reads, the inotify and eBPF
  system calls, tasks and channels, logging.

The gRPC transport of the services is not part of this tree: its protocol
definitions are not included, so the services expose their handlers as
methods.
