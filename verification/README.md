# yande_dl

A subscription downloader for Moebooru image boards (Yande.re, Konachan):
subscribe to a tag, download its posts in batches, never download a post
twice. The folder on disk is the source of truth; subscriptions and settings
are plain JSON.

## Layout

- `src/` — the library, verified with Verus. Every function carries a
  contract; the laws of the library are public proof functions named `law_*`.
  - `text` — trimming, lowercase, decimal and hex text, integer parsing.
  - `sanitize` — tag normalization and the on-disk folder segment of a tag.
  - `model`, `error` — posts, queries, ratings, errors and their messages.
  - `retry` — the retry policies and the backoff decision.
  - `downloader` — file and folder names, the folder scan, download
    outcomes, MD5 verification.
  - `job` — the page-by-page job runner (baseline, lookback window,
    blacklist filter) and the safe baseline.
  - `moebooru` — tag query text, request parameters, response status,
    post normalization.
  - `config` — subscriptions (`tags.json`) and settings, export and import.
  - `commands`, `session` — what the desktop shell answers and keeps: rating
    and blacklist settings, events, the preview cache, batch updates.
- `app/` — plain Rust around the library: HTTP, files, the async job loop,
  JSON (serde copies of the library's types), the command handlers.
- `tests/` — tests of the library on concrete values.
