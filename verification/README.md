# rugen

Random data from data descriptions, for scripts in the Rune language.

A script returns objects, lists, ranges and calls of helper functions
(`range`, `choose`, `values`, `weighted`, `optional`, `string`, ...). The
library turns such a value into a `DataDescription`, checking it, and draws
random data from a description. Both steps are verified with Verus.

## Layout

- `src/model.rs`: script values, markers, descriptions, errors, and their
  mathematical models (views).
- `src/classify.rs`: building a description from a script value
  (`try_build_description`), with the exact result stated as a spec function.
- `src/keys.rs`: the order of object keys, in which a description keeps the
  entries of an object.
- `src/generate.rs`: generating data (`generate`); every value generated
  conforms to its description, and every error is one the description can
  end in.
- `src/markers.rs`: the helper functions and the `|` and `*` operators of
  scripts.
- `src/expand.rs`: what the `describe!` macro rewrites.
- `src/random.rs`: the random draws, each a call into `rand`.
- `src/format.rs`: laying out a script's text with Rune's formatter.
- `src/laws.rs`: properties of descriptions and generated data, proved.
- `app/`: the command-line program and the Rune module: converting between
  Rune values and the library's values, floating-point draws, file I/O and
  printing diagnostics.
