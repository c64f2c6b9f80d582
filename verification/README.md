# synapse

A deterministic, local, offline compiler of repository context, with its logic
verified by Verus.

`synapse` indexes a source repository into a small graph of files, symbols,
projects, packages and their relations, and picks from that graph the files that
matter for a change, a path, a symbol or a query. It ranks them, fits them to a
token budget and renders a Markdown or JSON pack that can be pasted anywhere.

```text
local repository
  -> graph of files, symbols, projects and packages
  -> selected and ranked files
  -> context pack within a token budget
```

## Layout

- `src/` is the library. Everything that is decided or computed stands there,
  with a contract.
  - `graph/` holds the model, the contract of a graph store (what each read
    returns, as a function of the writes so far), the in-memory store that is
    proved to meet it, and the statements that a Cypher database is sent.
  - `indexer/` finds languages, manifests, symbols, imports, supertypes and
    references, resolves names to symbols, and runs an index from candidate
    files to graph writes.
  - `pack/` selects, ranks, budgets and renders a pack.
  - `share` and `explore` hold the rules for publishing a graph to a registry and
    for looking at it in a browser; `commands/` what the commands decide and print.
  - `repo`, `git`, `config`, `cli`, `errors`, `output/`: the small rest.
  - `text`, `lists`, `sorting`, `paths`, `json`, `globs`, `hashing`: what the other
    modules are built on, among it the items that call other crates.
- `app/` is the program: arguments, files, git, the database, the registry and
  the browser.
- `tests/` runs the library.

## What is proved

Contracts speak of plain sequences: a text is a `Seq<char>`, a graph store is the
sequence of writes it has seen. The `laws` modules, and the public proof functions
beside the code they are about, state what holds across calls. Some of them:

- a second run over unchanged files changes nothing and reports nothing done;
- after a run each candidate is known under its content's hash, its symbols are
  exactly those extracted from it, and a file that is gone is forgotten;
- a batch of files is read back as it was written, and a removed file is named by no
  query; edges are a set, whatever the order and number of their writes;
- what a pack contains stays within its budget, and what does not fit is listed as
  excluded;
- no value ever stands in the text of a database statement;
- a graph is published only where the configuration allows it.

Parsers, hashing, globs and JSON come from other crates. Each call stands in a
small function marked `external_body`, whose comment says what is believed of it.
