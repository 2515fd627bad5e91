# floatdo

The logic of FloatDo, a floating to-do widget with a desktop pet, written in
Verus. The functions in `src/` are verified against their contracts; the calls
into std, chrono, rusqlite and serde_json sit in small trusted functions whose
contracts are taken on trust. The database functions state the values they bind
to each statement (built by small verified functions) and what they make of
whatever rows come back; the contents of the database file itself are not
modelled.

- `src/database/`: the SQLite schema, the task, category, focus and settings
  repositories, row decoding, the task search (filters, order, paging) and the
  statistics.
- `src/commands/`: what the app's commands decide: tasks and CSV export, focus
  rounds (a state machine the app's timer drives), statistics, the pet's photo
  settings, frames and files, and the AI chat (endpoint, prompts, local context).
- `src/pet_avatar.rs`: the cut-out (background grown from the border, largest
  foreground piece kept), alpha masking, outline reach, crop and posterize.
- `src/reminder.rs`, `src/shortcuts.rs`, `src/window_pos.rs`, `src/pet_hit.rs`,
  `src/pet_segment.rs`: due reminders, global shortcuts, stored window positions,
  click-through and the segmentation model's files.
- `src/json.rs`: JSON values and the member, element and text lookups on them.
- `src/text.rs`, `src/time.rs`: the std string operations and the chrono calls
  the logic uses, each behind a small trusted function with its contract.

`app/` is the Tauri shell around the library (windows, tray, events, files,
network, the floating-point image styles); `tests/` runs the library.
