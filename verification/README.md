# file-watcher

A service that watches source folders and moves or copies new files to
destination folders once they have stayed quiet for a while, recording what it
did in a history file.

- `src/` is the verified library: paths, time spans, the configuration
  and its rules (defaults, loading, duplicate monitors), the list of files
  waiting to be handled, the history writer's rules, and the settings window's
  view state.
- `app/` is the program around it: reading and writing files, watching folders,
  the threads and channels, logging, and (de)serialization.
- `tests/` exercises the library on concrete values.
