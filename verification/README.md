# codex_switcher

A library for keeping several Codex CLI logins as named profiles and
switching between them, verified with Verus, and the `codex-switcher`
program built on it.

- `src/` is the verified library. Each command (`init`, `add`, `login`,
  `use`, `list`, `stats`, `current`, `remove`, `doctor`) is a machine
  (`commands.rs`, `login.rs`, `setup.rs`): given what the last step gave,
  it names the next step, under a contract that is an exact transition
  function. Proof functions named `law_*` state what holds of every run:
  `use` saves the current login before replacing it and, on a model of
  the disk (`Disk`), switching away and back keeps refreshed
  credentials; `use` on the active profile writes nothing and succeeds; `add` and `remove`
  respect `--force`, a failed `login` puts back the login and active
  profile it found, `init` backs up only once and writes only what it
  read, `doctor` succeeds only when every check passed, and a profile name
  cannot leave the profile directory.
- The rest of `src/` holds the rules the commands use: argument parsing
  (`args.rs`), profile names (`names.rs`), paths (`paths.rs`), the files'
  contents and the decisions made on file-system results (`storage.rs`),
  the Codex configuration (`config.rs`), the app-server replies
  (`json.rs`, `usage.rs`, `query.rs`), daily activity (`activity.rs`),
  the printed text (`format.rs`, `style.rs`, `table.rs`, `report.rs`,
  `listing.rs`, and the whole `stats` report in `statistics.rs`), the JSON documents of `--json` (`document.rs`), the
  completion scripts and the `cs` shell function (`shell.rs`), and the
  exit codes (`exit.rs`).
- `app/` is the program: it reads the environment, performs the steps
  (files, the lock, child processes, printing) and does the few
  computations made in floating point or with the local clock.
- `tests/` runs the library on concrete values.
