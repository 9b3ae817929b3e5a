# icy

A snapshot manager for Linux (btrfs subvolumes and LVM thin volumes) whose
decisions are written in Verus and proved against their specifications.

- `src/` is the verified library:
  - `config` — configurations, retention defaults, configuration files and
    their name order;
  - `snapshots` — snapshot records and the manager: next id, the commands
    of create/delete/rollback/diff, the record after each operation;
  - `retention` — what a cleanup removes, with the laws that it keeps the
    newest snapshots of each age class, that raising a limit never removes
    more, that carrying out its deletions leaves the snapshots whose id it did
    not remove, and that a second cleanup removes nothing;
  - `find_new` — reading `btrfs subvolume find-new` output: the generation
    of a snapshot and the files changed after it;
  - `execution` — the order in which a plan is carried out (commands,
    record, log line) and where it stops when a step fails;
  - `tui` — the terminal interface as a state machine;
  - `layout` — where the interface's popup goes (ratatui's layout solver);
  - `display`, `utils`, `text`, `paths`, `sorting` — texts shown to the user,
    sizes, probes, and the supporting specifications.
- `app/` is the program: the command line, files, external commands, the
  log, and drawing the terminal interface.
- `tests/` runs the library on concrete values.
