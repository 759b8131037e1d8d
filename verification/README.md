# misterdrillerterm

A digging game for the terminal, alone or against others on the same network.
The rules are a library that is verified with Verus; around it stands a thin
program that reads keys, draws, and talks to the network.

- `src/` is the library. Every function states in its contract what it returns
  or changes, over a mathematical model of the game (`World` in `game.rs`, the
  field as a `Grid` in `board.rs`).
  - The field and what falls on it: `board`, `groups`, `flood`, `sweep`,
    `listing`, `gravity`, `fall`, `physics`, `terrain`, `bombs`.
  - The game: `game`, `player`, `journey`, `effects`, `flash`, `mishaps`,
    `controls`, `frame`, `display`, `tuning`, `settings`, `session`, `screens`,
    `keys`, `constants`.
  - Playing together: `bytes`, `wire`, `messages`, `discovery`, `agreement`,
    `battle`, `lobby`, `lockstep`, `state_hash`, `dice`.
  - What holds of the library as a whole: `laws`, `field_laws`, `replay`, and
    the functions named `law_...` in the other modules.
- `tests/` holds the tests, one file for each part.
- `app/` is the program: terminal, sockets, threads and the encoding of
  messages.

Time is counted in nanoseconds, air in billionths of a point, so that all the
arithmetic is exact. Random draws come from the ChaCha8 stream of a seed: two
games with the same seed and the same inputs are the same game.
