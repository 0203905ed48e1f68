# wll_os

The logic of a small Unix-like kernel's file layer, its drivers and its
diagnostics, verified with Verus.

- `src/fs`: paths, the in-memory file system, the caches and plans for a volume
  on disk, FAT volumes, block devices, open files and their table, and the tree
  that joins all of them.
- `src/drivers`, `src/boot.rs`, `src/config`: addresses, sectors, the device tree
  and the memory beside the kernel.
- `src/diag`: what is counted, and the report of it.
- `src/logging.rs`, `src/task.rs`, `src/text.rs`, `src/bytes.rs`, `src/intmap.rs`,
  `src/textmap.rs`, `src/aged.rs`: messages, identities, texts, bytes and maps.
- `tests`: what the library does on given values.
- `app`: the machine: console, disks, the volume on disk.

State that the whole kernel shares is an explicit argument: a file system, a
volume, a table. Time and the calling task are arguments too. What is not known
of the disk yet is asked for (`Fault::Need`), and what has to change there is
handed out as a plan; the caller does the reading and writing and calls again.
