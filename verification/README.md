# hermes_remote

The verified core of a desktop client for Hermes hosts reached over SSH.

- `src/` is the library, verified with Verus. Every public function has a
  contract over `Seq`-based views, and the laws of the library (listing,
  removal and creation of workflows and bookmarks, normalization of skill
  references, safety of export names, the shape of `ssh` command lines, the
  order of launchable skills) are public proof functions next to the code
  they speak of.
  - `text`: characters, trimming, splitting, lines, joining, decimal notation.
  - `sort`: a stable insertion sort with its specification and lemmas.
  - `ssh`: `ssh` arguments and the diagnosis of failed remote commands.
  - `local_export`: safe export names, backup names and the archive script.
  - `remote_python`: framing of a JSON request into a remote Python program.
  - `file`, `workflow`: bookmarks and workflow presets per workspace scope.
  - `skill`, `kanban`: the skill inventory and Kanban task requests.
  - `identity`, `error`, `models`: ids, time stamps, errors and profiles.
- `app/` runs `ssh`, touches the file system, reads the clock and draws
  random ids, and converts to and from JSON.
- `tests/` exercises the library on concrete values.
