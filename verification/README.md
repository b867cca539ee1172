# kanban_boards

The verified core of a desktop kanban board application: boards with columns of
activities and tag categories, their export and import, and snapshots of the
application state.

- `src/` is the library, verified with Verus.
  - `model.rs`: the stored rows and the rows to insert, as plain records.
  - `commands/`: the values that the commands take and return, and the
    conversions from stored rows.
  - `database/board.rs`: export of a board, creation and update of a board row,
    and the order of the deletions that remove a board (with a proof that they
    remove exactly the board's rows).
  - `database/transfer.rs`: import and duplication as a step-by-step copy that
    hands out one row at a time and remaps every reference to the ids the store
    gave the copies.
  - `database/snapshot.rs`: which snapshots are pruned.
  - `color.rs`: tag colours between `0xRRGGBB` and `#rrggbb`.
  - `clock.rs`: the current time in RFC 3339 form.
- `app/` is the program around it: the database tables, the queries and
  transactions, and the commands served to the front end.
- `tests/` runs the library on concrete boards and snapshots.
