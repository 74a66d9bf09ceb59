# scandir

A directory scanner whose decisions are verified with Verus.

- `src/` is the verified library: glob filters on directory and file names
  (`filter`, compiled and matched by `glob_sl`), the entries and results of a
  scan with their paths relative to the root (`entry`, `results`), statistics
  with hard-link detection (`stats`), tables of contents and their merging
  (`toc`, `walk`), the per-directory and per-entry decisions of a walk and the
  file budget (`scan`), what a scan keeps between calls (`scan_store`,
  `walk_store`), and the `speedy`, `bincode` and JSON forms of tables of
  contents (`codec`). Stored errors are capped at 1000 wherever they are kept:
  by the collector of a direct scan, by the scan store, by the walk store (in
  all), where filter errors are attached to a collected walk, in merged tables
  and in the walk's statistics; a directory's listing on its way to the store
  keeps all of its errors.
- `app/` walks the file system with `jwalk_meta` on background threads, turns
  each entry into the library's `DirEntryInfo`, and offers the `Walk` and
  `Scandir` front ends on top of the library. The `speedy`, `bincode` and JSON
  forms of a scan's results are written through copies of the library's entry
  types that carry the `serde` and `speedy` derives.
- `tests/` exercises the library on concrete values.
