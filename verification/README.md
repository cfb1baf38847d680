# GraphSync

A desktop client that keeps a folder in sync across devices: local changes are
published to a coordination API as sync events, remote events are applied to
the folder, and file contents travel between peers over WebRTC data channels.

## Layout

- `src/` is the library, written in Verus and verified. It holds the logic of
  the client with its contracts:
  - `paths`: safe relative paths inside the sync folder (traversal and absolute
    paths refused, resolved paths stay below the root);
  - `filesystem`: which files take part in synchronization, and what a walk
    of the folder does with each entry;
  - `hashing`: SHA-256 content hashes as lower-case hex, fed piece by piece
    as content is read or written, and their comparison;
  - `state`: the local sync state, a map from paths to file entries, with its
    manifest, revisions, deletions and renames;
  - `conflict`: conflict copies and when a remote write or delete keeps the
    local file;
  - `engine`: the engine's decisions (status, missing files, remote event
    plans, file-system notifications, start checks, the background loop with
    its retry rounds and back-off, pausing and resuming);
  - `config`, `device`, `api`, `events`, `peer`, `signaling`, `tray`: settings,
    setup checks, API addresses and responses, sync events, peer transfer
    rules, signaling and the tray menu.
- `tests/` runs the library on concrete values.
- `app/` is the desktop program around the library: the Tauri commands and
  tray, disk and network work, the WebSocket and WebRTC plumbing, and the
  engine's loops. It reads, writes, sends and waits; what the engine decides
  along the way (what to publish, retry, poll, apply or skip) it asks the
  library.
