# glogger_core

The verified core of a Project: Gorgon log companion, written in Verus.

`src/` is the library. Every function in it is proved against its contract:

- `text`, `order`, `calendar`, `decimal` — character-sequence operations,
  string order, calendar text and the decimal arithmetic the parsers use.
- `log_events`, `log_fields`, `activity`, `player_events`,
  `player_event_parser` — the Player.log line parser and its state machine;
  `parser_laws` proves properties that hold across lines.
- `report_stats` — character report parsing.
- `stall_year_resolver`, `shop`, `revenue`, `inventory` — the stall tracker:
  game timestamps, shop log books, the revenue pivot, and the inventory's
  active days and window.
- `survey_types`, `survey_logic`, `survey_records` — the survey tracker's
  types, decisions (loot attribution among them: which survey use a gain
  belongs to) and rollups.
- `setup`, `settings`, `replay` — character discovery, setting defaults, and
  dual-log replay ordering.

Calls into `chrono`, `regex` and std that Verus cannot read go through small
trusted wrappers whose contracts state what the crates document; results that
take pages to describe are named instead.

`app/` is ordinary Rust around the library: the settings file, report files,
the SQLite survey store and its queries, serde forms of the library's types,
and the floating-point stall and shop arithmetic.

`tests/` exercises the library from outside.
