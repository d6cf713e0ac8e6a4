# loghound

A collector of the user-mode `OutputDebugString` output of a Windows session,
written as a verified Verus library (`src/`) and a thin program around it (`app/`).

- `src/capture/` — the `DBWIN_BUFFER` record layout (`dbwin`), decoding of a
  record's bytes into text (`decode`) and the decisions of the capture loop
  (`Capture::handle`: name lookup through the cache, filter, message or nothing).
- `src/filter.rs` — process filter by name (case-insensitive) or process id.
- `src/process.rs` — the bounded, oldest-first process-name cache and
  `file_name_of`.
- `src/config.rs` — configuration model, defaults and validation.
- `src/logger.rs` — rendering of a log line from its format.
- `src/model.rs` — the captured message and its local time.
- `src/startup.rs` — the first record of a run.
- `src/service.rs` — the service's answers to the service control manager.
- `src/text.rs` — whitespace, trimming, decimal rendering, pattern replacement.
- `app/` — command line, TOML file, rotating log files, the Win32 side
  (kernel objects, ANSI code-page conversion, process names, console handler), the local clock and the
  Windows service.
