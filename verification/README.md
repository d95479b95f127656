# qeet

`qeet clone <product>` clones every repository that belongs to one product of a polyrepo
organization, into one workspace, concurrently, without ever touching work that is
already on disk.

The decisions are made in a library verified with Verus; the program around it does the
I/O.

## Layout

- `src/` — the verified library.
  - `remote` — URL derivation, the transport allow-list that guards every `git`
    invocation, and repository identity (`git@host:o/r.git` and `https://host/o/r` are
    one repository).
  - `manifest` — the product registry: its model, validation (every problem reported at
    once), and which manifest is in effect.
  - `product` — resolving a requested product, with a nearest-key suggestion by edit
    distance.
  - `workspace` — where each repository lands, the containment check, and the inspection
    that decides between cloning, skipping and refusing.
  - `clone` — the coordinator's decisions (what needs `git`, retries, backoff, cleanup of
    partial clones) and the run report.
  - `git` — the clone command line, failure classification, and `git status` parsing.
  - `output` — the text of progress lines and the final summary.
  - `commands` — the decisions behind the other subcommands.
  - `cli`, `error` — argument values and exit codes.
  - `text` — the string and sequence functions the rest is specified with.
- `tests/` — tests of the library.
- `app/` — the executable: argument parsing, manifest reading, the `git` processes, the
  asynchronous clone loop and terminal rendering.
