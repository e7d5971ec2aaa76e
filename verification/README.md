# kagi-cli

A client library for the Kagi services (Search, the Universal Summarizer,
Kagi News, the Assistant and Translate), whose decision logic is specified
and proved with Verus. The library also holds the checks, forms and lookups
of the account settings pages (custom assistants, lenses, custom bangs,
redirects); the network side does not offer those commands, since reading
the settings pages needs their HTML parsers, which are not part of this
project.

## Layout

- `src/` — the verified library.
  - `text` — string primitives with their meaning as character sequences.
  - `error` — the error type and the predicates contracts use for it.
  - `http` — service URLs and the diagnostic suffixes of failed answers.
  - `responses` — how each kind of HTTP answer is read (status, body).
  - `search` — search requests, their validation and query parameters.
  - `summarize` — summarizer requests.
  - `stream` — the framed answers of the summarizer and the Assistant.
  - `assistant` — prompts, threads, attachments, Ask Page.
  - `news` — Kagi News categories and content filters.
  - `resources` — custom assistants, lenses, custom bangs, redirects.
  - `translate` — Translate requests, session bootstrap and payloads.
- `tests/` — tests of the library.
- `app/` — the network side: HTTP calls, JSON decoding and the async
  operations built on the library.

The News content filters read their presets from a JSON file, given by
`KAGI_NEWS_FILTER_PRESETS` or found at `data/news-filter-presets.json`.
