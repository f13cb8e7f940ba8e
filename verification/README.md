# ani-gui

The backend library of a desktop front end for the `ani-cli` anime
scraper, written in Verus. Every function in `src/` carries a contract.
Verus proves them all except those of the small trusted wrappers around
calls into std and outside crates (URL parsing, base64, SHA-256,
serde_json string quoting, shlex, directories-next, the clock); their
contracts say what those crates' sources and documentation give.

What it covers:

- the shared `ani-hsts` history file (parse, serialize, upsert, remove);
- choosing the allanime candidate `ani-cli -S` should take, and the
  GraphQL requests to allanime, Kitsu and AniList;
- the play flow's decisions: cache keys, what a cache hit or a resolution
  writes, the session and external-player launches, the `Referer` rule,
  and the cache-hit path as steps (probe, session, answer, eviction) that
  the caller performs one by one;
- finding an allmanga show's Kitsu entry, as steps over the recorded
  mapping and the show's aliases;
- the local stream proxy's URL scheme (segment URLs carrying the token
  they are given, the checks of a segment request, sessions);
- the on-disk image cache: URL hashing, file layout, eviction order and
  the prune walk;
- `ani-cli` self-updates: staleness, outcome classification, the source
  guard, and the ISO-8601 timestamps of the outcome file; the freshness
  of metadata cache rows;
- spawning `ani-cli`: the argv and environment of debug and download
  runs, the bundled-directory `PATH` (split and joined by the platform's
  rules, which the caller supplies), and the first executable on `PATH`;
- settings defaults and per-user paths, external players and Syncplay.

Layout:

- `src/` — the verified library (one module per concern, laws as public
  proof functions next to the functions they speak of);
- `tests/` — tests on concrete values;
- `app/` — a small command-line program around the library: file I/O,
  child processes, serde formats.
