# tile_breaker

A block-stacking game: a block slides above the tower, the player drops it,
what overhangs the block below is cut off and falls, and the game ends when a
block misses the tower entirely.

- `src/` is the verified library (Verus): the per-frame state machine of the
  game (`game`), the text shown over the scene (`screen`), block colours
  (`block`, `utils::safe_u8_add`), and the settings and user-data file formats
  (`utils`, `user_data`, on top of the character scanning in `text`).
- `app/` is the window around it (raylib): drawing, input, files, and the
  floating-point geometry of the blocks, the falling pieces and the camera.
  It runs the library's frame function and carries out the effects it returns.
- `tests/` exercises the library on concrete games and files.
