# KitsuPin core

The core of a local clipboard history, verified with Verus: saving and merging copied text and
images, searching, matching copies with what the browser reports of them, migrating older
databases, and the state machines behind the popup, the settings and the clipboard watcher.

- `src/` is the verified library.
- `tests/` runs it with the real outside crates.
- `app/` is the ordinary program around it: windows, files, sockets and the clipboard itself.
