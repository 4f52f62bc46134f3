# rage_of_mages

Verus-verified library for Rage of Mages (J2ME): strict readers for the
game's resource formats and the game's own boot, loaders and run loop up to
its first screen, each function with a proved contract.

- `src/` — the verified library.
  - `reader`, `pak`, `map`, `int_table`, `scenes`, `utf`: the format readers.
  - `mutf8`, `scenes_encode`: the writers of the `.utf` and `scenes.pak`
    formats as specifications, with the laws that the readers invert them.
  - `jio`, `jvm`, `jrandom`, `resource`: the Java runtime pieces the game
    reads through (streams, exceptions, `java.util.Random`, resources).
  - `loader`, `text`, `common`, `trig`, `screens`: the game's classes.
  - `game`, `canvas_m`, `midlet`: the game state, the boot, the loop, the
    painters.
  - `strings`: the standard-library string calls the decoders make,
    with the contracts their documentation states.
- `tests/` — the test suite, run against the compiled library.
- `app/` — the host: display, clock, image decoding and drawing.

The laws the library proves stand as public `law_*` proof functions next to
the functions they relate.
