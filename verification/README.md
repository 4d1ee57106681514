# Autosprint

A lightweight autosprint for Minecraft Bedrock on Windows: while the forward key
is held and the game has the keyboard, the sprint key is held too.

- `src/` is the library, verified with Verus: the command line, the search for
  the game's `options.txt` and the reading of it, the question whether the game
  has the keyboard, and the steps of the keyboard hook and of the sprint loop.
- `app/` is the program around it: files, the console, and Windows.
- `tests/` runs the library.

## Runtime flags

- `--latency balanced` (default): lower CPU usage with fast response.
- `--latency ultra`: most aggressive response profile, can use more CPU while
  moving.
- `--help`: print command usage.
