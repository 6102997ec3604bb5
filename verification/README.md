# glorfindel

The deterministic core of the Glorfindel agent framework and its TTRPG
campaign dashboard, written in Verus: every function in `src/` carries a
contract over mathematical models (`Seq`, `Map`, `int`) and is proved by
the verifier.

- `src/` — the verified library: task and agent bookkeeping, routing and
  permissions, dice, the rules database and party state, the scene-turn
  pipeline's file naming and reply reduction, the campaign runs (turns,
  openers, eucatastrophe, summarizers) as step machines together with
  what each of their steps asks the model, campaign paths, the knowledge
  graph's frontmatter format and queries, and what the chat agents make of
  model replies, the media-server tools and the admin server's definition
  registry. Calls into `rand`, `uuid`, `chrono`, `serde_json` and
  `urlencoding` sit behind small trusted wrappers whose contracts state what
  those crates document.
- `tests/` — ordinary Rust tests against the compiled library.
- `app/` — the orchestrator program: argument handling, HTTP to Ollama and
  Jellyfin, file and process I/O, and the serde copies of library types.
  Besides the stdin task loop, `app/` runs one campaign run from the
  command line and exits: `--think`, `--session-turn`, `--player-turn`,
  `--scene-summary`, `--scene-summary-legacy`, `--session-summary`,
  `--grand-opener`, `--eucatastrophe` and `--scene-opener`. Each is driven
  by the library's run: the run names the next step and, through
  `run_requests::request_for`, the exact request it makes of the model;
  `app/` performs the file reads and writes and the model call.
  `--serve ADDR DATA_DIR` serves the dashboard's API over HTTP: the agent
  definitions, the tool catalog, the campaigns, their files and notes, and
  the same runs, started in the background.
