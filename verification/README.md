# sbobino_commands

The decisions behind the commands of a transcription desktop application, verified with Verus:
provisioning of runtimes and models, live sessions, runtime health and probes, AI services, and
everything that is made of a transcript (chat, summaries, optimized text, exports, trimmed audio,
speaker diarization).

- `src/` is the verified library. Each function states what it returns for every input; relations
  between functions are stated as public proof functions.
  - `provisioning/` plans downloads and installs. An install of the managed runtime is a journaled
    transaction: `runtime_recovery.rs` proves that no interruption loses the previous runtime.
  - `runtime/` judges the health of the tools and what a start needs.
  - `realtime.rs` holds the rules of live sessions.
  - `artifacts/` works on transcripts; `artifacts/export/` makes documents and files of them.
  - `settings.rs` deals with AI services and their catalogs.
  - `paths.rs` joins, takes apart and compares paths as Unix and Windows write them.
  - `text.rs`, `text_map.rs`, `names.rs`, `order.rs` and `rounding.rs` are what these are built on.
- `app/` performs what the library plans: files, processes, the network and floating-point numbers.
- `tests/` runs the library on concrete values.
