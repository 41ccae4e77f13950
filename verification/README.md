# codex-monitor

Monitors the 5-hour usage windows of Codex accounts: it captures each account's `/status` card in
a terminal, starts windows that appear dormant with one short request to the model, and reports
the cards to Discord.

- `src/` decides. It is written in Verus: every function states in its contract what it returns,
  and the public `law_` functions state what holds across functions. The state machines in
  `session`, `interaction` and `cycle` take what happened and give what is to be done next.
- `app/` acts: it runs Codex in a pseudo-terminal, draws the pictures, posts to the webhook and
  reads the configuration file.
- `tests/` runs the library on given values.

What the library has from outside is stated, not proved, at the functions that make the calls:
chrono in `calendar`, vt100 in `terminal`, serde_json in `discord`, image and anyhow in
`status_image`, and `str::to_lowercase` and `String::push` of the standard library in `config` and
`text`.
