# dtop

A terminal monitor for the containers of many Docker hosts, with a core that is
verified by Verus.

- `src/` is the core: what a daemon answers becomes containers and events, lost
  hosts are waited for, containers are filtered, sorted and selected, and the list
  is laid out for the terminal. Every function states what it returns or changes,
  and the proof functions named `law_...` state what holds of several functions
  together. `src/outside.rs` holds the calls into other crates, with what is relied
  upon of each.
- `app/` talks to Docker and draws on the terminal. It hands the core plain values
  and performs what the core decides.
- `tests/` runs the core, with the other crates linked.

Percentages and rates are doubles. The core holds them as bits, orders them and
grades them; the arithmetic and the formatting are in `app/`.
