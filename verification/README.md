# terminalist

A keyboard-first Todoist client for the terminal. The task-management logic is a
Verus library (`src/`) whose behaviour is stated in `requires`/`ensures` contracts and
proved; the program around it (`app/`) reads the terminal, talks to Todoist and
OpenAI over HTTP, draws with ratatui, and keeps the local cache file.

Layout:

- `src/ui/` — key and mouse routing, the application's actions, the task list, the
  dialogs, the Agenda, and the texts the dialogs show.
- `src/sync/` — what is sent to the backend for each change, how cached rows change,
  and the in-memory cache (`sync::cache::LocalCache`) with its all-or-nothing write
  of a sync, its 30-day trash retention, emptying the trash, task search and view
  snapshots; `sync::batch` proves that storing a batch of tasks twice changes nothing.
- `src/backend/` — the backend's records and their conversion from Todoist's replies.
- `src/ai/` — checking AI proposals and answering the model's tool calls.
- `src/ext.rs` — the trusted wrappers around chrono, uuid, ratatui and std calls.
- `tests/` — tests of the library.
- `app/` — `main`, terminal I/O, HTTP, the JSON cache file and drawing.

Set `TODOIST_API_TOKEN` before running; `OPENAI_API_KEY` enables AI proposals.
