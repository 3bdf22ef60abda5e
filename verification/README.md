# AbsurderSQL

The logic of a SQLite database for the browser and for native platforms, as a
Verus library.

- `src/` is the library: what is committed when dirty blocks are synced
  (`storage`, `sync_operations`), what is written to files and to IndexedDB
  (`fs_persist`, `metadata`, `indexeddb`), how databases are opened (`open`) and
  statements run (`statement`), who may write (`verbs`, `leadership`,
  `write_queue`), what is measured (`telemetry`), and what the other operations
  of a database consist of (`database`, `procedure`).
- `tests/` runs the library on examples.
- `app/` surrounds the library with SQLite, the file system and the browser.

Operations that wait for the outside are machines: they say what is to be done
next and are told how it went. Public proof functions named `law_..` state what
holds of several operations together.
