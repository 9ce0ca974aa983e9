# nie

`nie` builds, runs and enters derivations of remote repositories through the stable Nix
command-line tools (`nix-build`, `nix-shell`, `nix-instantiate`).

## Layout

- `src/` is the library, verified with Verus: resource identifiers and their round trip through
  text (`location`), aliases, evaluation arguments, the invocations of the Nix tools (`nix`),
  the JSON that describes repositories to the fetching expression (`fetch`), the caches
  (`registry`), checkouts, files and outputs (`store`), pinned shells (`pinning`), the messages
  shown to the user (`interact`) and the decisions of each subcommand (`commands`).
- `app/` is the program around it: the command line, running the Nix tools, the file system,
  and the caches of one run.
- `tests/` exercise the library on concrete values.

## Nix expressions

The program hands Nix a few expressions of its own (the Flake compatibility layer, the
fetching and discovery expressions, the `shell.nix` template). It reads them from the directory
that `NIE_NIX_DIR` names, or from `nix/` beside the executable.
