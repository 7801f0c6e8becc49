# daily_agent

A private daily-log agent: it captures what a user sends (from Telegram or a
terminal), keeps it in a local SQLite store, and can ask a local or remote
model to classify and connect logs.

- `src/` is the verified library (Verus): command aliases and expansion, the
  Telegram router, localized text, privacy redaction, the storage decision and
  its one-step undo, validation of model output, search queries, URLs and
  media naming. Each public function states its result in `ensures`; the
  properties that relate several calls are public `law_*` proof functions.
- `tests/` runs the library on concrete values.
- `app/` is the program around it: configuration, SQLite, HTTP clients for
  the models, the Telegram bot and the terminal loop.
