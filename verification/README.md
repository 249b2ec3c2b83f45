# osubot_core

The storage rules and the scheduler of a chat bot for a rhythm game, written in Verus.

* `src/` is the library. `storage`, `bindings`, `snapshots`, `updates`, `pending` and `listeners`
  hold the tables and what every operation does to them; `scheduler` decides when players are
  looked at and what is done for each of them; `journal` tells which rows have changed; `schema`
  tells which columns an older database lacks and what its rows have in them; `time` and `text`
  wrap the calls into `chrono` and `std` that the rules need; `laws` states what holds of the
  operations together.
* `tests/` runs the library, and holds its rules against a real database.
* `app/` joins the library to the database, to the game's service and to the clock.
