# focus_tracker

A verified library for a desktop focus tracker: it classifies the focused
window by the user's rules, decides what the background tracker records
and how a recording changes the activity log, builds the CSV report (with
its percentages computed exactly as binary64 arithmetic would), and prepares
the summary and prompt for the AI productivity coach.

- `src/` is the library, checked by Verus.
- `app/` holds the parts around it that perform I/O: SQLite storage through
  `rusqlite`, the dashboard commands, the once-a-second tracker loop and the
  HTTP request to the language model.
