# ivara

Session logging and analysis for the hooks of a coding assistant: every hook event is
captured into SQLite, and commands list, query, summarize, export and stream sessions.

The library under `src/` is verified with Verus. It holds the project's logic, each public
function with a contract:

- `hooks`, `hook_laws`: merging the capture wrapper into the hook settings document and
  removing it again, with the laws that installing wires every canonical event, is
  idempotent, only appends the command's entries (its full frame), and that uninstalling
  undoes it, is idempotent, counts and removes exactly the command's entries and keeps
  every other entry in order.
- `usage`, `tally`: token usage summed over a transcript's assistant entries, each entry id
  once, placeholders skipped, with the model behind the most calls.
- `capture`, `hook_input`, `events`: what storing one hook event involves.
- `query`, `time`: SQL of the event filters, relative time arguments, spans between
  timestamps, prune cutoffs.
- `summary`, `export`, `backfill`, `report`, `format`: narratives, export objects, the
  stream's batches, backfill decisions and every line of text the commands print.
- `json`, `text`, `paths`: the JSON model, string helpers and file locations.

`app/` is the program around it: argument parsing, the database, files, the clock and the
terminal. `tests/` runs the library on concrete values.
