# briscola

Briscola, the Italian trick-taking card game, as a Verus-verified library with
two front ends.

- `src/` is the verified library: the cards and the deck (`card`, `deck`,
  `hand`), the scoring and trick rules (`rules`), the computer players (`ai`),
  the terminal game (`player`, `game`, `console`, `painter`), the state machine
  of the browser table (`table`, with its invariant, progress and end-of-game
  laws in `table_laws`), the touch-preview gesture logic (`gesture`), and
  small text helpers (`text`). Calls into `rand` (shuffling, coin tosses,
  random play) and `ansi_term` (coloured suits) sit behind the trusted items
  in `chance` and `console`.
- `tests/` runs the library on concrete games.
- `app/` is the program: the terminal game (`main.rs`) and the browser front
  end (`web.rs`), which renders the table with `web-sys` and drives it with
  timers. The card pictures are expected beside the page under
  `assets/briscola/bresciane/`.
