# s4lib

Readers for log files, verified with Verus: a file's bytes are read in blocks,
blocks are read as lines, and lines as syslines (a line that begins with a
datetime, with the lines that follow it up to the next such line). Syslines
can be searched for by datetime.

Layout of `src/`:

- `blockreader`: the file's contents (plain, gzip, xz, or a file within a tar),
  handed out in blocks.
- `linereader`: lines, held as parts of blocks.
- `sysline`, `syslinereader`: syslines, the datetime patterns, and the search by
  datetime filters.
- `syslogprocessor`: the stages of processing one file, and its summary.
- `filepreprocessor`: the file type of a path, and which files can be read.
- `datetime`: datetime parsing and filters.
- `summary`, `helpers`, `common`, `cache`: the summary of a file's reading,
  small helpers, shared types, and the caches.
- `laws`: properties that relate the operations to each other.

`app/` reads files from disk, walks directories and prints; it is not verified.
