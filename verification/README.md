# voices_summary

The verified core of a desktop service that synchronises a USB voice recorder,
sends each new recording to a transcription service and then to a summary
service, and keeps everything in a local SQLite store.

- `src/` is the library, checked by Verus: the data model, the settings
  checks, the recorder matching rule, the scan decisions (roots, extensions,
  fingerprints), the retry policy and answer checks of the HTTP services, the
  job machine that takes a recording from `imported` to `completed`, the
  Markdown documents, the SQL of the listing and the dashboard overview.
- `app/` is the program around it: the Tauri window and tray, the settings
  file, the SQLite calls, the PowerShell drive query, the HTTP requests, and
  the loops that scan and process. It performs what the library decides.
- `tests/` exercises the library on concrete values.
