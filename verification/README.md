# autoarc

A concurrent, multi-format archive extractor that unpacks every supported
archive in a directory, tries a list of candidate passwords on each, and
re-queues the archives it finds inside.

- `src/` is the library, verified with Verus: file classification from magic
  bytes, output-path conventions, the password trial, the initial scan's
  decisions, the runner's bookkeeping, and the reading of `lsar` listings.
- `app/` is the program around it: argument parsing, reading files, running
  `unar`/`lsar`/`file`, the zip/rar/7z readers, async scheduling and progress
  bars. It hands plain values to the library and acts on its answers.
- `tests/` exercises the library on concrete inputs.
