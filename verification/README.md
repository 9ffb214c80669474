# vacuity

Finds contract clauses that prove nothing. For every `#[ensures]` (or, on request,
`#[requires]`) clause in a tree of Rust sources it writes a Kani harness that decides one
question with a single query, lists every clause it cannot probe with the reason, and reads
Kani's output back onto the clauses.

- postconditions (default): a harness havocs the inputs and the result and asserts the
  clause; VERIFICATION SUCCESS means the clause is vacuous.
- `--preconditions`: a harness havocs the inputs, assumes every `#[requires]` and covers
  reachability; an UNREACHABLE cover means the preconditions are jointly unsatisfiable.
- `--completeness`: a harness calls the function, havocs a different output and covers the
  postcondition on it; a SATISFIED cover means the contract is loose.

Clauses are read from `#[ensures(...)]`, `#[kani::ensures(...)]` and
`#[cfg_attr(kani, kani::ensures(...))]`, and likewise for `requires`. Every clause found is
either covered by a probe or skipped with its reason, one skip per clause.

## Layout

- `src/` is the library, verified with Verus:
  - `text.rs`: character-level helpers (word-exact renaming, the first element of a clause,
    substring search, decimal rendering);
  - `model.rs`: the plain model of the Rust syntax that generation reads, and the test of
    whether `kani::any()` can produce a type;
  - `syntax.rs`: `syn`, behind small trusted wrappers whose results are named, turning
    source text into that model, so that the model of a file is a function of its text;
  - `harness.rs`: the three kinds of harness, and the walk over a file's items;
  - `arbitrary.rs`: the sorted list of types with a hand-written `kani::Arbitrary`;
  - `probe.rs`: the report and generation over a set of files;
  - `verdict.rs`: reading Kani's output back, and rendering the module to paste;
  - `laws.rs`: what holds of every run.
- `app/main.rs` is the command line: it walks the directory, reads the files and prints.
- `tests/` runs the library on concrete sources and outputs.
