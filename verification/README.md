# tinycd

`tinycd` syncs, installs and starts a release whenever a Git remote changes or a
webhook arrives. Each deployment gets a folder of its own, older ones are kept
for rollback, and `current` points at the newest release that has proved itself.

The library under `src/` holds every rule and decision, verified with Verus. The
program under `app/` does what touches the world: arguments, files, processes,
the network and the terminal. It asks the library what to do next and reports
back how it went.

| module | what it decides |
|---|---|
| `config` | the command line over the local file over the defaults, and what is refused |
| `recipe` | how a release is installed, started and checked, and in which environment |
| `source` | URLs and checkouts, the record beside a deployment, the remote's commit |
| `deployment`, `dry_run`, `trial`, `server` | each step of a deployment, of a dry run, of the trial of a started release, of stopping one and of moving `current` |
| `daemon` | what a run is to do, the interlock, the lock, polling and taking up a release |
| `releases`, `status`, `layout` | pruning, rollback, the report, and the names below the root |
| `share` | paths that every release shares |
| `webhook`, `digest` | who may deploy over HTTP, and what is answered |
| `wizard`, `dashboard`, `screen` | the first-run setup and the live dashboard |
| `text`, `numbers`, `order`, `env_table`, `toml_text` | what the others are built from |

Public proof functions named `law_...` state what holds of the library as a
whole: that `current` only moves to a release that stayed up and passed its
check, that a failed deployment leaves the deployed state alone, that nothing is
synced or restarted past the interlock, that secrets are never inherited by the
commands of a release, that the live release is never pruned, and so on.

The library trusts SHA-256 from `sha2`, the comparison of digests from `subtle`,
and three functions on strings from the standard library. Each of these is
declared once, with the claim that is made of it.
