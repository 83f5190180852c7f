# citoer

Citoer saves the funniest quotes of a chat channel: it reads new messages
from Slack, splits each into the quote, who said it (quotee), who it was
directed at (receiver) and who recorded it, and hands the records to a
spreadsheet.

- `src/` is the library, verified with Verus: text handling (`text`), a
  text-keyed table (`table`), instants (`time`), messages and their
  grouping by a regular expression (`message`), the chat service's
  timestamps, mentions and responses (`media_adapters`), and the sheet's
  columns, ranges and cells (`storage_adapters`, and the older
  single-row interface in `adapters`).
- `app/` is the program around it: configuration from the environment,
  HTTP calls to Slack and to the Google Sheets API, and JSON decoding.
- `tests/` exercises the library on concrete values.

The calls into `chrono` and `regex` stand behind small trusted functions
whose contracts say what those crates do; everything built on them is
proved.
