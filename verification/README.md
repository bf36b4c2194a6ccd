# execution

The executions of a territory game: what players order, what nations decide for
themselves, and what each of these does to the game from tick to tick. The library is
verified with Verus; its contracts say of every order, decision and tick what the game is
afterwards.

## Layout

- `src/game*.rs`, `src/state.rs`, `src/map.rs`, `src/config.rs`: the game, what can be asked
  of it and done to it. `GameView` is the game as contracts see it.
- `src/execution.rs`, `src/exec_enum.rs`: what all executions have in common. An execution
  begins with `init` and goes on with `tick`; the trait's spec functions say what becomes of
  the game and of the execution itself.
- `src/*_execution.rs` and the like: attacks, nukes, MIRVs, structures, ports, diplomacy,
  donations, the doomsday clock, the upkeep of players.
- `src/ai_*.rs`, `src/nation*.rs`, `src/nuke_ai.rs`, `src/nuke_volley.rs`, `src/mirv_ai.rs`,
  `src/defense_posts.rs`, `src/structure_value.rs`: how nations and tribes decide.
- `src/intent.rs`: orders as clients send them, JSON objects of `serde_json`.
- `src/ordered_*.rs`, `src/flat_heap.rs`, `src/lists.rs`, `src/prng.rs`, `src/parabola.rs`,
  `src/decimal.rs`: what these are built from.
- `src/laws.rs`: what holds of several of them together. Other laws stand with what they are
  about; their names begin with `law_`.
- `app/`: the formulas that need floating point, and the loop that gives executions their
  ticks. A nation's tick runs part by part there, and the engine steers its ships in between.

## Units

Troops are whole numbers. Amounts in attacks and on boats are scaled by `TROOP_SCALE`, limits
are in thousandths, relations in hundredths, ratios in percent. An attack has `MAX_ATTACK` at
most, which is over four hundred times what a player can hold, so that any number of attacks
can be added up. Orders may name less than no troops. What the engine works out for itself
(troop limits and rates, prices, the names of units, spawn areas, the doomsday bar) is part of
`Config` and `Player`.
