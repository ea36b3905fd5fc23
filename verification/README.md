# BOREAL

BOREAL (Browser-based Organizer for Rclone Exploration, Audit & Lookup) keeps
an inventory of Google Drive, local files, a people directory and a few other
services in SQLite, and shows it in the browser.

This crate is the library behind it, written in Verus: each function states
what it returns in `requires` / `ensures`, and Verus proves the code meets it.

- `src/` is the verified library: settings (`config`), the JSON and CSV
  readers, the inventory and directory stores (`database`), the Drive
  explorer and Shared Drives views, the metadata update state machine
  (`metadata`), the xlsx exports (`xlsx`, `reports`) and the text helpers
  they share. SQLite (rusqlite), zip, sha2 and serde_json are called through
  small trusted wrappers whose doc comments say what is assumed of them.
- The database handle keeps, as ghost state, the statements the library
  has handed to SQLite through it. Contracts of the database functions say
  which statements (SQL and bound parameters) each request sends; what
  SQLite answers cannot be promised, so the code that reads an answer is a
  verified function of its own (`changed_or`, `totals_from_answer`, ...).
- Public `law_*` proof functions state properties that relate several
  calls, such as directory resolution not depending on the order of the
  entries, or a written home being the recorded one afterwards.
- `tests/` runs the library on concrete inputs.
- `app/` is the executable around it: reading files, the HTTP server, the
  metadata update loop that performs the library's actions.
