# voxminutes

The text, transcript and model-management logic of a meeting assistant that
records, transcribes (SenseVoice / Whisper / X-ASR through sherpa-onnx),
translates (OPUS-MT, M2M100, Hy-MT2 through a llama.cpp helper process) and
exports its recordings, written in Verus with its behaviour stated in
contracts and proved.

Layout:

- `src/` — the verified library.
  - `text.rs`: character classes, trimming, words, lines, search and
    replace over `Vec<char>`, with their spec functions.
  - `llm.rs`: Hy-MT2 prompts, translation directions, output clean-up
    (special tokens, echo prefixes, script filtering, repeated paragraphs)
    and positional restoring of numbers; translation requests.
  - `transcript.rs`: the live transcription worker's decisions (sequence
    numbers, best partial snapshot per segment, cross-window overlap,
    speech announcement, chunk accounting).
  - `provider.rs`: Whisper repetition-loop truncation, overlap removal
    between audio windows, window planning and joining.
  - `records.rs`, `export.rs`: stored records, pagination, TXT / SRT /
    Markdown export, file names and export directories.
  - `registry.rs`: the model registry, download sources and URLs, resume
    decisions, running tasks, import kinds.
  - `asr.rs`, `translation.rs`, `sidecar.rs`, `helper.rs`, `bpe.rs`: model
    catalog and load plans, translation settings, the helper's line
    protocol, its request loop, generation state and replies, BPE merge
    sanitising.
  - `laws.rs`: properties that span functions.
- `tests/` — tests run against the compiled library.
- `app/` — a command-line program around the library: SQLite through sqlx,
  HTTP downloads, archive extraction, the helper process, and the float
  computations that the library leaves out.
