# hd_analyzer_core

A disk-usage analyzer whose core is verified with Verus.

- `src/` is the library: path syntax (`lexical`), scan rules and
  configuration fingerprints (`rules`), file measurement and hard-link
  deduplication (`size`), file kinds (`categories`), the directory cache
  (`cache`, `keys`), the job registry (`jobs`), the driver's request and
  event logic (`driver`, `local`), deletion safety (`safety`), listings of
  scanned directories (`scan`), running totals during a precise scan
  (`live`), drives (`drives`), the terminal browser and the drive-scan tally
  (`browser`, `aggregate`), and the shapes and checks of the desktop commands
  (`dto`, `commands`, `clock`, `paths`).
- `tests/` runs the library on concrete values.
- `app/` is the terminal front end: it lists drives, walks them on
  background threads and draws the browser with ratatui. It also holds the
  filesystem driver (`HdDriver` and its local implementation), which reads
  directories and runs scan jobs on worker threads while the library decides
  what to cache and what each job reports.
