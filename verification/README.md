# wordle

Wordle — guess a hidden word in six tries — as a library verified with Verus,
and a program around it.

- `src/` is the verified library: scoring a guess, the alphabet of best
  colours, difficult mode, a round as a state machine over typed lines, word
  counts and statistics, the terminal's prompts, and the browser page as a
  state machine over page events (`src/app.rs`). Verus proves every
  function against its contract, except a handful of small wrappers around
  `rand` and std (case mapping, building a string), whose contracts are
  trusted; `src/laws.rs` states properties that span functions.
- `app/` is the program: the command line (`clap`), the terminal game (reading
  lines, colours with `ansi_term`, JSON files with `serde_json`) and the
  browser page (`yew`), each handing plain values to the library.
- `tests/` runs the library on concrete games.

## Data

Word counts (`WordCounts`) are a vector of `(word, count)` entries in which
no word occurs twice, and the key colours (`Keyboard`) are a vector of 26
colours indexed by letter. Their contracts speak of a `Map` from word to
count, and of a sequence of 26 colours; the order of the entries is not part
of the model. Verus specifies std's `HashMap` through the view of its keys,
and with `String` keys that does not carry the contracts these types need.

## What the program lacks

The program ships no word lists and no way to choose a word from a day and
a seed. So:

- the terminal game needs word-list files (`--final-set` and
  `--acceptable-set`), and refuses random mode;
- the browser page starts with no list of acceptable words, so it accepts no
  row, and when the day or the seed changes it logs the request and keeps
  its answer.
