# wiki-server

A web server for LLM-maintained wiki projects: users and roles, per-user
project directories, the recent-projects list, file uploads, web search
through DuckDuckGo, a per-project store of embedded page chunks, and a
coding-agent command-line tool streamed to the browser.

## Layout

- `src/` is the library, verified with Verus. Each module states its
  behaviour in `requires`/`ensures` contracts over `Seq`, `Option` and spec
  functions, and proves laws about it:
  - `text`, `paths`: string and path operations (`Path::join`, `~`
    expansion, file names, decimal and hexadecimal formatting, parsing).
  - `auth`, `session`: identities, the rule that a user reaches only its own
    project directory, how a request is authenticated, the signing secret.
  - `users`: user administration, including that the last administrator
    is never removed, and importing the configured users.
  - `projects`, `recent`: where projects are created, the checks on opening
    them, the stably sorted project list, the recent list.
  - `config`: defaults, environment overrides, the frontend's view.
  - `search`: DuckDuckGo result pages to results.
  - `vector`: page ids, the store's location, the layout of a chunk batch.
  - `agent_cli`: detection of the agent tool and the turns written to it.
  - `files`: upload targets, renaming a taken name, served-file headers,
    related wiki pages.
- `tests/`: tests of the library on concrete values.
- `app/`: the HTTP server around the library (axum, sqlx, reqwest,
  LanceDB, process handling).

## Notes

- The project list matches database rows to the directories found on disk
  by path. The rows are scanned, and the last row for a path wins, which is
  what indexing the rows by path in a map gives; a map keyed by strings has
  no specification in Verus that such a proof could use, so the library
  works on vectors and states the match with `last_row_for`.
- The server reads the agent tool's program name from
  `LLM_WIKI_AGENT_PROGRAM` (there is no built-in default), and the tool's
  routes are under `/api/agent/`.
