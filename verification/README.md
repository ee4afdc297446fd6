# tonglan

通览 browses dated report files in a working directory and writes new
reports with a deep-research agent: it plans an outline with a language
model, searches the web for each paragraph, summarizes and reflects, and
formats the result as an HTML newspaper and a Markdown report.

## Layout

- `src/` — the library, verified with Verus.
  - `text.rs`: character-sequence operations (trimming, searching,
    replacing, decimal numerals, UTF-8 widths) and their specifications.
  - `reports.rs`: file name patterns as regular expressions, reading dates
    out of file names, ordering reports newest first, and the year and
    month index.
  - `detect.rs`: guessing the file name pattern of a directory.
  - `extract.rs`: XML-style tags, code fences, thinking blocks and HTML
    documents in model replies.
  - `search_tools.rs`: custom search requests, hits read from search
    replies, and the text kept of a web page.
  - `agent/`: the research state, prompts, reply handling, the language
    model call policy, and the research run as a state machine.
  - `pattern.rs`, `json.rs`: the calls into `regex` and `serde_json`.
  - `ai_config.rs`, `search_config.rs`, `settings.rs`: settings and their
    rules.
- `tests/` — tests of the library.
- `app/` — a command-line front end: files, HTTP and the settings files.
