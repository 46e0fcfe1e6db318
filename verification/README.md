# yunying_server

The server side of a desktop content-creation assistant: the decisions behind
its IPC channels (scheduled and long-cycle automation tasks, background tasks
and work items, the knowledge index, chat rooms, media generation and the
media library, QR-code logins, execution receipts and logs), written in Verus
with their contracts proved.

- `src/` — the verified library. `json.rs` models the JSON values that cross
  the IPC boundary; each channel family has its module (`schedule.rs`,
  `status.rs`, `tasks.rs`, `knowledge.rs`, `social.rs`, `generation.rs`,
  `job_requests.rs`, `redclaw.rs`, `runtime.rs`, `system.rs`, `login.rs`, …);
  `order.rs` and `calendar.rs` hold the stable ordering and the civil
  calendar they share. Calls into chrono, base64, urlencoding, image, uuid
  and a few std functions stand behind small trusted wrappers whose
  contracts say what those crates document.
- `tests/` — tests of the library on concrete values.
- `app/` — the shell around it: conversions to and from `serde_json`, the
  clock, and the file, timer and process work of the channels.
