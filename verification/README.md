# mimick

Verified core of Mimick, a Linux daemon that watches folders and uploads new
photos and videos to an Immich server.

- `src/` — the library, verified with Verus: calendar formatting of upload
  stamps, MIME types, server URL handling and connection choice, upload reply
  interpretation, the album cache, the upload queue bookkeeping and retry
  list, file-settling, debouncing and one-wait-per-file rules, the chunked
  build-up and hex rendering of SHA-1 checksums (the digest itself comes from
  the `sha1` crate), configuration handling and the decisions behind the
  settings window.
- `tests/` — tests of the library.
- `app/` — the program around it: GTK/libadwaita window, tray icon, file
  watcher thread, HTTP client, JSON files and the keyring.
