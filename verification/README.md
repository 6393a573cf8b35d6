# agentdictate

The dictation logic of AgentDictate, verified with Verus.

`src/` is the library. Every function there has a contract that Verus
proves: the stages of a dictation job and the rules that move it (`job`),
the decisions from a captured recording to a delivered dictation
(`pipeline`: from the job and what the last action gave, its next state and
the next action),
History paging and its cursor (`history`), transcript search planning,
typo corrections and previews (`history_search`, `search_cursor`), usage
totals by day and week (`usage`), how long Recovery items stay
(`retention`), daemon-start cleanup (`startup_cleanup`), schema migrations
(`migrations`), the settings window's change detection (`observer`), recording priority over index maintenance (`maintenance`),
imported dictations (`external_dictation`), the move of retired replacement
rules into vocabulary (`legacy_replacements`), stored replacement rules
(`replacement_rules`), the settings file's retired key (`settings_store`),
the socket protocol's framing rules (`ipc`), and the view models of the
settings window and the recording overlay (`ui`).

The public proof functions named `lemma_*` state the library's laws: for
example that a cursor reads back as the page end it encodes, that a paste
that may have happened is never replayed, and that a recording always takes
priority over index maintenance.

`app/` holds what Verus does not see: files, the SQLite database, the
socket, the local clock and locks, around the library's decisions for usage,
History, search, Recovery, startup cleanup, migrations and settings. The
transcriber, the delivery gate and the deliverer that `pipeline`'s actions
name are not part of it.

`tests/` runs the library on concrete values.
