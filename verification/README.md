# bitcraft_server

The game rules of a BitCraft server module (a SpacetimeDB module), written
in Verus: each rule is an executable function with a `requires`/`ensures`
contract, and the properties that span several rules are stated and proved
as `law_*` proof functions.

## Layout

- `src/` — the verified library, one module per part of the game:
  - `equipment`, `items`, `progress`, `entities` — equipment slot layout and
    its migrations, item stacks, what the rules read of a player, entity ids;
  - `traveler_credits`, `traveler_tasks`, `task_completion` — weekly task
    credits, drawing, rerolling and replacing traveler tasks, turning them in;
  - `placeables`, `growth`, `food`, `deployables`, `resources`, `respawn` —
    placing and interacting with placeables, growth, eating, deployables that
    follow their owner, thinning and restoring resources;
  - `watchtowers`, `expel`, `empires`, `sieges` — NPC watchtowers, expelling
    the players of a closed region, empire requests, siege cleanup;
  - `inter_module`, `sessions`, `admin` — the global module's messages to the
    regions and its shared transactions, player sessions, admin refusals;
  - `random` — the reducer's random number generator and the index draw
    the task rules make through it (the resource thinning shuffles through
    it in `resources`).
- `tests/` — tests of the library on concrete values.
- `app/` — the SpacetimeDB side that cannot be verified: a few conversions
  of SpacetimeDB values (timestamps, schedules, connection ids), the
  floating-point formulas, and the texts of refusals that carry numbers or
  names. The reducers' database reads and writes are not in it, because the
  database schema they use is not part of this project's sources.
