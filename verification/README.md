# tan

The library of the Tan language: its expressions, the parser that turns
tokens into expressions, the passes that prune (comments, string templates)
and optimize (`Array` and `Map` lists) whole expression trees, the scopes
and modules that bind names, and the standard library of foreign functions
(sequences, sets, strings, dates, regular expressions, JSON, HTML and more).

The library is written in Verus: each function states its behaviour in
`requires` / `ensures` clauses over a mathematical model of the values
(`Expr::model()` gives a `Value`), and Verus proves the code against them.

- `src/` is the verified library. Calls into outside crates (`chrono`,
  `regex`, `rust_decimal`, `rand`, `uuid`, `comrak`) stand behind small trusted
  wrappers whose contracts say what the crates' documentation promises.
- `app/` is the host side: floating-point arithmetic, terminal, file and
  process access, the JSON crate, and the table from the
  library's foreign-function tags to the functions they stand for. It calls
  the library for the argument checks and the value conversions.
- `tests/` runs the library on concrete values.
