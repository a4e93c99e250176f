# lada_gui

Verified core of a batch front end that runs the Lada mosaic-restoration engine
through Docker, written in Verus.

- `src/` — the library, verified with Verus:
  - `text` — character-level model of strings: whitespace and trimming, search,
    splitting, `lines`, joining, decimal numbers, float-literal syntax;
  - `settings` — job settings, their defaults, parallel job count, VR clip window;
  - `docker` — Docker mount paths and every `docker` command line a job runs;
  - `tool_output` — reading `docker ps`, `docker info`, ffprobe and `nvidia-smi` output;
  - `patterns` — regular-expression matching through the `regex` crate;
  - `progress` — Lada and ffmpeg progress lines, stderr handling, the bounded
    retry/fail decision (with backoff) after a Lada run, a failed start or a
    failed copy, copy progress;
  - `files` — file names of paths, video-path filter, output and work-folder
    names, final messages, choice of the VR work drive;
  - `vr` — the VR pipeline as a state machine (which step runs next, what a
    failure reports, which work files can go), and the sweep of leftover VR
    work folders;
  - `laws` — properties that span functions (round trips, idempotence, retry
    classes and bounds, the order of the VR steps).
- `tests/` — tests on concrete values, several against the standard library's behavior.
- `app/` — the Tauri application: commands, processes, file I/O, and the loops
  that perform what the library decides.
