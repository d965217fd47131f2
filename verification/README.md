# kernel

The verified core of a small teaching operating system, written in Verus.

- `src/fs/flags.rs`: the flags of `open` and the read/write permission of
  their access mode.
- `src/fs/path.rs`: splitting paths at `/` and comparing them.
- `src/fs/inode.rs`: opening a file. Device paths are decided at once; a
  path on disk is resolved by a walk that asks the file system one question
  at a time (look a name up, create a file, truncate it) and decides from
  the answers, ending in the opened file or an error number.
- `src/task/`: task contexts, and blocking, suspending and exiting the
  running task, with the process bookkeeping that exiting implies
  (zombie state, exit codes, handing children to the initial process,
  releasing thread resources).
- `src/driver.rs`: the block-device self-test: its pattern, its check of a
  block read back, and the step that decides which block comes next and
  when the test has passed or failed.

`app/` holds what runs on a host: a tool that extracts a program from the
system's FAT image (using `fatfs`), with a driver that runs the verified
path walk against that file system, and the block-device self-test loop.
