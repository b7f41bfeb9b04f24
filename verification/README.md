# screenhistory

Keeps a local copy of macOS Screen Time history (Apple's
`knowledgeC.db`), exports it as CSV or JSON, schedules the sync with
launchd, and browses usage week by week in the terminal.

The library in `src/` is verified with Verus; `app/` is the command-line
program around it (databases, files, processes, terminal).

- `src/text.rs`: trimming, decimal numbers, substring search.
- `src/order.rs`: the order of texts.
- `src/paths.rs`: default paths under the home directory.
- `src/schedule.rs`: `--every` / `--at`, and the LaunchAgent property list.
- `src/cli.rs`: time filters and the Full Disk Access hint.
- `src/models.rs`: export filters, sync summary, local rows.
- `src/query.rs`: the SQL statements and their bound values.
- `src/date.rs`: calendar days and Unix timestamps.
- `src/viz.rs`: weekly statistics per app and day.
- `src/tui.rs`: the browser's state and key handling.
