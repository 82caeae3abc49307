# devenv_shell

The core of `devenv shell`: an interactive session that runs a shell in a pseudo
terminal, passes its output through a terminal emulator, and redraws what
changed above a status line. Output of full-screen programs is copied through
byte for byte.

The library under `src/` is written in Verus. Every function states what it
writes, returns and changes, and Verus proves it.

| Module | What it holds |
| --- | --- |
| `text`, `ansi` | Building blocks of what is written to the terminal |
| `cell` | Cells of the emulator, and a row of them as text with styles |
| `renderer` | What a frame draws, given the last one; the scrollback |
| `frame` | The frames of a session: batch, command, resize, status line |
| `batch` | Collects output, and decides whether it is copied or drawn |
| `session` | Configuration, sizes, keys and commands |
| `event_loop` | The session as steps, each of which asks for the next work |
| `harness` | The render pipeline without a shell, into a buffer |
| `perf`, `report` | Counters of a profiled session, and their report |
| `messages`, `inputs` | Texts printed on the screen; inputs of a project |
| `laws` | Properties that span operations |

Taken on trust are the control sequences that `crossterm` writes (`ansi`), that
`String::push` appends a character (`text`), and that a cancellation token of
`tokio_util` can be carried around (`session`).

`app/` is the program around the library: it owns the terminal, the pseudo
terminal, the emulator, the threads and the clock, and does the work that the
event loop asks for.
