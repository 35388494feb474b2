# symbio_session

The session engine of Symbio, verified with Verus: chat sessions, their
transcripts, and the rules that keep a transcript consistent while a model
turn streams into it.

## Layout

- `src/` — the library. Every function is verified against its contract,
  except the small trusted wrappers around `time`, `uuid`, `indexmap`,
  `serde_json` (compact rendering of a JSON value), `str::len`,
  `String::push` and `Instant` (each marked
  `#[verifier::external_body]`, its contract stated from the outside
  crate's documentation and source).
  - `message`, `json` — the message frame and free-form JSON as plain data.
  - `transcript` — the in-flight graph of one session: frame merging,
    in-flight numbering, change delivery with delta coalescing, the frame log.
  - `transcript_ops`, `failure` — truncation and patching of a stored
    transcript; how a failed or aborted turn is settled.
  - `tool_exec`, `tool_result_guard` — a batch of tool calls and what each
    call leaves behind; capping and archiving oversized tool results.
  - `entry`, `routes`, `inbox`, `upsert` — the decisions of the session
    plugin: request parameters, turn endings, addressing inside the session
    mount, inbox and session writes.
  - `nodes`, `paths`, `store`, `types` — addresses, node views, the on-disk
    layout, list projections and paging, titles and summaries.
  - `text`, `text_split`, `tokenizer`, `prompt`, `rate_limit` — text
    helpers, token metering, the time context line, request pacing.
- `tests/` — tests of the library on concrete values.
- `app/` — the I/O around the library: JSON on the wire and on disk, the
  file store, archives, the rate limiter's clock, delivery, and the driver of
  a tool batch.

The laws the library keeps across calls are public proof functions
(`lemma_*`), each with a doc comment that states it.
