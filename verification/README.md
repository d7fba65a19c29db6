# cargo-pkgman

Package-manager style commands for Cargo-installed programs, verified with
[Verus](https://github.com/verus-lang/verus).

```bash
cargo pacman -Syu
cargo apt upgrade
cargo dnf remove bat
cargo pm install ripgrep
```

## Layout

`src/` is the library. Every function in it states what it returns in
`requires` and `ensures` clauses, and Verus proves them.

| Module | What it does |
|---|---|
| `dialect`, `cli`, `arguments`, `pacman`, `operation` | From command-line arguments to an operation |
| `run`, `help`, `cargo` | From an operation to the actions that carry it out, and to messages and the exit status |
| `launcher` | The small programs that select a frontend |
| `config`, `registry` | Cargo's configuration, and the registry that answers for a source |
| `index`, `fetch` | Sparse index files, their cache, and when to ask again |
| `packages`, `listing` | Install records, and listings of them |
| `updates`, `upgrades` | Which packages are looked up, what is newer, and how it is installed |
| `order`, `text`, `text_map`, `node`, `version` | Sorting, text, maps, documents and versions |

Public proof functions next to the code state what holds of several functions
together: a circular source replacement is refused, a lookup ends after three
attempts, `--dry-run` never changes anything, and so on.

`app/` is the program around the library. It reads files and the environment,
sends requests, runs `cargo` and prints.

`tests/` runs the library on concrete values.

## What is trusted

TOML and JSON are read by the `toml` and `serde_json` crates, and versions are
parsed and compared by `semver`. The library calls these crates through a few
small wrappers in `node` and `version`; each says what is taken for granted
about the call. Of the standard library, `String::push` and
`str::to_lowercase` are described in the same way.

## License

MIT
