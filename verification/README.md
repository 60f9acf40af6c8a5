# auto_matrix_manager

A manager that publishes videos to several short-video accounts (Douyin
first): it keeps accounts and publication tasks, captures account
credentials through a browser, uploads videos to the VOD service with signed
requests, publishes them, and reads comments.

The library in `src/` is written in Verus: every function carries a
contract, and the laws of the library (round trips of the stored names, the
task status rules, the order of uploaded parts, the coverage of a file by its
upload parts, the progress of the environment setup, and others) are proved
as public proof functions.

- `src/` — the verified library: text measurement, the JSON model (read and
  written by serde_json), request signing, the extraction rules, account and task
  models, the API request builders and answer readers, the upload plans, the
  browser authorization state, comments and their paging.
- `app/` — the command line around it: SQLite storage, HTTP requests,
  the Node.js/Playwright processes and file access.
- `tests/` — tests of the library on concrete values.
