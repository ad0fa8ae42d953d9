# Hatchspire rules, verified

Hatchspire is a monster-raising town game set beneath a ruined tower: the camp
hatches, raises and breeds monsters, puts them to work, and sends a party up
the tower floors to fight, gather and come home. This crate holds the game's
rules as a library whose behaviour is stated in contracts and proved with
Verus.

## Layout

- `src/data/` — authored content: the definitions (`schema`), the content set
  and its lookups (`game_data`), the checks run when content is assembled
  (`indexes` for repeated ids, `validation` for cross references and balance),
  and the small built-in content (`fallback`).
- `src/state/` — the live game state: resource ledger, monster roster and
  party, eggs, town buildings and jobs, records, the tower map, the tower run
  and the combat encounter.
- `src/engine/` — every rule that changes the state: combat (rules, actions,
  the engine, replays and the replay law), town capacity, monsters, eggs,
  breeding, town jobs, the end of a day, and the tower (`tower_engine/`: runs,
  maps, objects, movement, navigation, pressure, camps, contracts, anomalies,
  landmarks and survey flares).
- `tests/` — scenarios on a hand-built content set.

The laws of the game (what every operation keeps, what one operation undoes
or forbids in the next) are public proof functions named `law_*` beside the
functions they speak of.
