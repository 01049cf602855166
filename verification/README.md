# loglens

Filters a log file by keyword (and optionally by level) and reports how many lines matched per
level. A log line reads `LEVEL message` or `TIMESTAMP LEVEL message`, with `LEVEL` one of
`INFO`, `WARN`, `ERROR`.

    loglens <LOG_FILE> <KEYWORD> [--config <CONFIG_FILE>] [--ignore-case] [--level <LOG_LEVEL>]

Exit codes: 1 read error, 2 usage error, 3 parse error.

Layout:

- `src/` — the verified library: line parsing (`parser`), keyword and level filters
  (`matcher`), the `ignore_case` setting (`config`), the command line (`cli`), the per-line
  tally (`report`), character-level helpers (`text`) and the plain keyword search of the first
  exercises (`recall`).
- `app/` — the program: reads the arguments, the configuration files and the log, and prints.
- `tests/` — tests of the library.

Run under the name `week-01-recall` or `week-01-recall-2`, the program instead performs the
plain keyword search of the two earlier exercises (`<FILE> <KEYWORD>`).
