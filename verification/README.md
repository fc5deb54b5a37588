# deskpet

The logic of a desktop pet with a soul: a ghost whose feelings drift, that
remembers its owner, keeps a diary, dreams, and talks through a
chat-completion service. The library in `src/` is written in Verus; its
functions are verified against their contracts, except the few small
wrappers around outside crates (marked `external_body`), whose contracts are
taken on trust from those crates' documentation and source.

## Layout

- `src/` — the verified library:
  - `text`, `clock` — strings as character sequences, numbers in decimal,
    and the current time.
  - `sealing`, `ghost_file`, `secure_config` — the encrypted file format
    (HKDF-SHA256 and AES-256-GCM) of ghost files and of the AI settings, with
    the round-trip laws.
  - `ai_service` — service URLs, error messages, the SSE stream decoder and
    the reading of replies.
  - `local_compressor`, `memory_service`, `memory_compressor`, `context_window`,
    `token_budget`, `prompt_builder` — memories: local compression, the
    choice of the memories written into the prompt, and the prompt itself.
  - `emotion`, `timeline`, `initiative` — event types and logs, the pet's
    sense of time, and when it speaks up.
  - `screen_capture` — a screen grab as the base64 text of an opaque RGBA
    PNG.
  - `chat_commands`, `ghost_commands`, `screenshot_commands`, `chat_history`,
    `extract_service`, `summarize_service`, `sentiment_service`, `weather`,
    `stt_service`, `tts_service`, `ghost` — the decisions and texts of the
    commands and services.
- `tests/` — tests of the library on concrete values.
- `app/` — the program around the library: the soul's floating-point
  arithmetic, the SQLite store, the HTTP clients, the files in the data
  directory, and a console demonstration of two ghosts.
