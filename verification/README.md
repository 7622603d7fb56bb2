# cctraveler

A terminal travel agent: a chat loop with a language model that can call
travel tools (hotel scraping and search, trains, flights, route comparison,
trip plans, city information, price monitoring, a small knowledge wiki).

## Layout

- `src/` — the library, verified with Verus. It holds the conversation
  runtime (turn loop, tool calls, usage accounting, compaction), session
  records and their round trip, SSE framing and stream assembly, layered
  TOML configuration, the system prompt, `@`-reference expansion, slash
  commands, and the decision rules of the travel tools (dates, limits,
  comfort and route recommendation, retry and backoff, monitor and wiki
  operations, CSV export). Calls into outside crates (`serde_json`,
  `anyhow`, `toml`, `chrono`) stand behind small trusted wrappers whose
  contracts are stated in their doc comments.
- `app/` — the program around it: command-line parsing, terminal I/O,
  HTTP clients for the model and the scraper, SQLite storage, Redis
  caching, metrics, and the floating-point parts of the tools.
- `tests/` — tests of the library on concrete values.
