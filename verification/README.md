# iron_fauna

The rules of Iron Fauna, a creature-grafting RPG, as a Verus library: each
public function carries a `requires`/`ensures` contract over spec functions,
and Verus proves every body against it.

- `src/data` — the data definitions (species, world maps, settlements,
  factories) and their lookups.
- `src/model` — the rider, per-factory verdicts and relapse, the session,
  the capped chronicle, flag-gated dialogue and its one-shot rewards.
- `src/economy.rs` — buying, selling, funding the watch, passing verdicts.
- `src/overworld.rs` — grid steps, warps, what facing a tile offers (NPC,
  gestarium door, factory heart), what a heart calls for, encounter odds and
  weighted packs, the HUD objective.
- `src/combat.rs`, `src/menu.rs` — the plain-value rules a battle consults:
  riding and hopping, victory and retreat, the command menu. The real-time
  battle itself (timings, damage, AI) runs on floating point and is not
  part of this crate.

Rates that the data files give as fractions are held as integers: relapse
rates in parts per million and relapse risk in parts per trillion (so a
funded watch's scaled rate is exact), encounter rates in parts per million
and encounter odds in parts per hundred million, multipliers in percent.

`app/` is the program around the library: it reads the JSON data files
(serde), draws the overworld and the shop with macroquad, and saves the
session. `tests/` runs the library on concrete values.
