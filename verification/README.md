# muusik

A music library server: it scans directories for songs, keeps their tags in
a SQLite database, edits tags with a history of earlier versions, organises
files on disk from a template, and runs file operations and background jobs.

- `src/` is the library, written in Verus. It holds the decisions of the
  server with their contracts: tag clean-up and metadata, album grouping,
  directory checks, song path templates, the step machine of file
  operations, the song scan, the job book, the task registry with its scan
  and update tasks and the step machine of a song update, migration
  bookkeeping and the lookups behind the HTTP routes. Calls into outside crates (`handlebars`,
  `sanitize-filename`, `uuid`, `mime_guess`, `image`, `time`, `tokio-util`)
  stand behind small trusted wrappers whose contracts are documented where
  they are declared.
- `tests/` runs the library on concrete values.
- `app/` is the server around it: command line, settings, SQLite queries,
  tag reading and writing with `lofty`, the background runners of jobs,
  tasks and file operations, and the `axum` routes. The path contracts
  describe Unix paths.
