# rss_cli

A feed tool for agents and scripts: it fetches RSS, Atom and JSON feeds on request and gives
structured JSON, on the command line and as a Model Context Protocol server.

- `src/` is the library. Every item in it is verified with Verus: what to request and what a
  response comes to, parsing, filtering, ordering, deduplication, paging to a token budget, cursors,
  pacing per host, the cache's records, and all renderings.
- `app/` is the `rss` binary around it: arguments, files, sockets, timers and the server's plumbing.
- `tests/` runs the library, with the crates it depends on linked.

## Where to start

| Module | What it holds |
|---|---|
| `fetch`, `ratelimit`, `cache` | conditional requests, pacing per host, cache records |
| `parse`, `markup`, `content`, `layout`, `joiner`, `identity`, `query`, `discover` | feeds and pages turned into items and addresses |
| `batch`, `dedupe`, `totals` | a request's feeds put together, duplicates, counts |
| `mcp`, `args`, `cursor` | what a tool call asks for |
| `page`, `fill`, `marker`, `room`, `answer`, `session` | what it is answered with, that it keeps within its budget, and that paging ends with everything delivered |
| `cli`, `config`, `report`, `output` | what a command asks for, and what it prints |
| `model`, `wire`, `json`, `record` | the output and its JSON, and JSON records that are read back |

Properties that relate several functions are the public proof functions whose names begin with
`law_`.

## What is not proved

Calls into other crates stand behind small wrappers, each marked `external_body` and documented with
what it claims: `serde_json`, `base64`, `sha2`, `chrono`, `url`, `html2text`, `tl`, `feed_rs` and
`opml`, and `str::to_lowercase`, `char::is_numeric`, `String::from_utf8_lossy` and the `Debug` text of a
`str` in the standard library.

Some of these calls panic, do not end or exhaust the stack on some documents. What they need is checked
first, by verified code: a feed whose markup nests too deeply, or holds a time that cannot be read, is
refused as one that cannot be parsed; an OPML document that nests too deeply, or whose tags do not match,
is refused; and a page has its tags cut out instead of being rendered where it has table cells that span
rows or very many columns, a list that starts with a huge number, very many tags, or a blank
preformatted block. Characters whose width depends on their neighbours are replaced by others while a page
is laid out, and put back.
