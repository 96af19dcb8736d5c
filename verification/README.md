# game_floors

The decisions of a small Bevy tower game, verified with Verus.

- `src/floors.rs`: which floor the player stands on, read from the rays cast
  below the character, and which floors of the level are drawn opaque.
- `src/terrain.rs`: what becomes of each mesh of a freshly loaded level,
  given the floor metadata stored on it.
- `src/logging.rs`: the log filter the game starts with.
- `src/laws.rs`: properties of the floor rules, proved.
- `app/`: the Bevy and Dioxus program around the library (ECS systems,
  rendering, physics, JSON parsing of the mesh metadata).
