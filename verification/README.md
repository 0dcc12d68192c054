# devstart

Devstart runs a project's development tasks without thinking: it discovers
tasks from Cargo, `package.json` scripts, Makefiles and a local
`.devstart.yaml`, lists them, and runs, prints or copies the one asked for
(by name or alias), or opens a configured link or folder shortcut.

## Layout

- `src/` is the verified library (Verus).
  - `tasks/` holds the task model and its providers (`cargo`, `npm`,
    `makefile`, `local`), the stable ordering of listings (`order`), and
    `resolve`/`discover`, which merge local and discovered tasks.
  - `alias`, `shortcuts`, `strmap`: aliases, shortcut configuration, and the
    ordered text-keyed map they are built on.
  - `exec`: how a task's command line is run (directly or through a shell).
  - `table`, `prompt`, `style`: the listing (drawn through `tabled`) and the
    selection labels.
  - `action`: what to do once a task, link or folder has been found.
  - `text`: verified text handling (splitting, lines, replacement, order).
  - `pattern`: patterns compiled once and tested through the `regex` crate
    (trusted calls).
- `app/` is the command line program: argument parsing, reading files,
  YAML/JSON parsing, the interactive prompt, the clipboard
  and running processes.
- `tests/` exercises the library on concrete inputs.
