# acc_telemetry

Lap timing for Assetto Corsa Competizione, verified with Verus.

- `src/` — the verified library:
  - `shared_memory`: the SDK's status, session, flag and penalty codes, and
    the NUL-terminated UTF-16 names of the shared-memory pages;
  - `lap_time`: the "M:SS.sss" text of a time;
  - `lap_recorder`: the state machine that turns successive graphics-page
    samples into lap records with sector times;
  - `json_export`: the session recording, its statistics (counts, best and
    average lap), and the recordings directory and file name;
  - `clock`: the wall clock, read through `chrono`.
- `app/` — the Windows program around it: the page layouts, the Win32
  shared-memory mapping, the polling loop and what it does with each sample,
  the debug log, and writing the recording as JSON with serde to the path
  made of the library's recordings directory and file name.
- `tests/` — tests of the library.
