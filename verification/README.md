# unity-launcher

The decisions behind a small launcher for Unity projects on macOS, verified with
[Verus](https://github.com/verus-lang/verus). The launcher reads a project's
`m_EditorVersion` and starts the matching Unity Hub editor, or brings the one
that already runs to the front.

| Command                     | What it does                                                     |
|-----------------------------|------------------------------------------------------------------|
| `unity-launcher`            | Launch the editor, or focus it where it runs.                    |
| `unity-launcher launch`     | The same. With `-batchmode` it runs headless, without graphics.  |
| `unity-launcher focus`      | Focus the project's running editor.                              |
| `unity-launcher quit`       | Send `SIGTERM` to the project's running editor.                  |

## Layout

`src/` is the library, every item of it verified:

- `cli`: the command line.
- `session`, `step`: the commands as a state machine. A session names an effect;
  whoever runs it performs the effect and hands back a reply.
- `progress`: what holds of every session, whatever the replies are.
- `paths`: the project, its files, the editor, the auth hook and the pid file.
- `process`: searching the process list, telling a live editor from a stale
  process id, exit statuses.
- `discovery`: that the search finds the editors that the launcher starts, and
  takes none that runs on another project.
- `spawn`: argument lists, shell results, the auth hook and its failures.
- `logs`: which logs are too many.
- `calendar`: dates from seconds, and timestamps.
- `script`, `error`: what is handed to `osascript`, and how failures are shown.
- `user_env`: filling in `HOME`, `USER` and `LOGNAME`.
- `text`: strings as sequences of characters.

`app/` performs the effects: files, processes, the environment. `tests/` runs the
library on concrete values.

## What is taken on trust

Contracts that are stated and not proved stand where they are used, each with a
comment that says what it claims: `String::push` in `text`, `Path::parent` in
`paths`, `String::from_utf8_lossy` in `spawn`, `libc::WIFEXITED` and
`libc::WEXITSTATUS` in `process`, and the system clock in `calendar`.
