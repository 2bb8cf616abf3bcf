# Shoot out your life

A small vertical shooter: every shot costs the player life, which comes back
when the bullet hits an enemy or is caught again at the bottom line.

## Layout

- `src/` — the game logic, verified with Verus.
  - `geometry.rs`: whole-pixel vectors.
  - `bullet.rs`, `enemy.rs`: the moving pieces and their one-frame rules.
  - `scenes/game.rs`: the game scene as a state machine. `GameScene::update`
    takes the buttons of one frame and returns the effects to play; its
    contract is the specification `spec_frame`, and it keeps the game
    invariant `game_inv` and the life budget (life + charge + force in
    flight) law.
  - `scenes/title.rs`: the title screen's particle timer and buttons.
  - `assets.rs`: the names of pictures, sounds and texts.
  - `info.rs`: window size and version.
  - `rng.rs`: the seeded generator of `rand` that places enemies.
- `tests/` — tests of the library.
- `app/` — the program around it (window, input, sound, drawing, particles),
  built on `tetra`.
