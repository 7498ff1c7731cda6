# voice_service

The core of a voice-generation web service, written in Verus. The functions
under `src/` carry contracts that Verus proves, except a few small functions
marked `external_body` that call std, `base64`, `serde_json` and `csv`: their
contracts are trusted, and each says in its doc comment what it claims.

- `src/` — the verified library:
  - `requests.rs`: request checks, the crowd-worker recording check as a step
    function, account answers, lip-sync runs;
  - `text.rs`, `transcript.rs`: word counting, splitting, sentence spans, word
    grouping by alignment, spoken-name segments;
  - `audio.rs`: silence detection (sound and complete), silence removal, frame
    extraction, voice-code and episode paths, the wall clock;
  - `batch.rs`: how work is handed out in batches;
  - `naming.rs`: storage object names, URLs, local paths and queries;
  - `server.rs`, `not_found.rs`: providers, broker message kinds, API errors and
    the answer envelope;
  - `auth.rs`: the user a decoded token speaks for;
  - `ws.rs`, `assoc.rs`: the collaborative spreadsheet session as a state
    machine with its invariant and laws.
- `tests/` — tests on concrete values, run against the compiled library.
- `app/` — the HTTP server around the library: routes, database, storage,
  external tools, WAV files and the floating-point measures.
