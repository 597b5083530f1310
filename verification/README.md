# migratory

The decision logic of a Vagrant-style virtual machine manager, written in Verus
and proved against its contracts.

- `src/` is the verified library: the action middleware chain and its warden
  (recovery, interrupts, hooks), box versions and `~>` constraints, checksums,
  box selection and pruning, forwarded-port parsers for several providers
  (Hyper-V JSON included), provider detection and installation, capability
  dispatch, PowerShell, Docker, `halt`/`destroy`, `global-status`, `login` and
  `cloud` decisions, and the text the command line prints. `src/laws.rs`
  states the properties that hold across functions.
- `app/` is the command-line program around it: argument parsing, downloads,
  archives, processes and the file system. It offers `init`, `box`
  (`add`, `list`, `remove`, `prune`, `repackage`), `mutate`, `port`,
  `provider`, `plugin`, `autocomplete`, `list-commands`, `cap` and the Docker
  commands; the decisions of the other commands stand in `src/` only.
- `tests/` runs the library on concrete values.
