# roguelike

The game logic of a small isometric roguelike for Godot, verified with Verus.

- `src/` is the verified library:
  - `grid`: integer vectors, the isometric projection of grid cells to world
    positions, and the identifiers of the eight grid directions;
  - `actions`, `event_handler`: from the keys pressed in a frame to the action
    asked for (arrow keys turned into isometric grid steps);
  - `entity`: the turn state machine of an entity (listening, performing a
    walk or a strike, arriving);
  - `atlas`: the libGDX texture atlas format as the editor imports it
    (`text` for lines and separators, `values` for the four numbers of an
    attribute, `reader` for the state machine over the lines, `plan` for what
    to change in the sprite frames, `laws` for what holds of every atlas read);
  - `v01`: the first version of the game, on a square grid;
  - `utils`: small helpers.
- `app/` is the Godot extension around it: scene nodes, input, sounds,
  sprite movement in floating point, and the editor import plugin that loads
  and saves the resources.
- `tests/` runs the library on concrete values.
