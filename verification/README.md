# FluxDB storage core

The parts of a small database engine that decide and compute, written in Verus: every function has
a contract, and the contracts are proved.

- `src/page`: leaf and internal B+Tree pages as bytes. `*_layout` says what a page is, `leaf` and
  `internal` read and change one, `*_laws` say what holds between the operations.
- `src/wal`: log records, from entries to bytes and back. The checksum comes from `crc32fast`.
- `src/buffer_pool`: which page is in which frame, pins, the clock, and when a page has to be
  written first. Nothing here touches a disk; each step says what is to be done next.
  `contents` says what becomes of the bytes on the way: a fetch gives back what was last written.
- `src/transaction_manager`, `src/transaction`: transaction ids, their status, snapshots.
- `src/vacuum`: which versions are dead, and pages without them.
- `src/disk`, `src/index`, `src/key`, `src/text`: page offsets, index metadata, keys and values as
  bytes, numbers in messages.
- `app`: files, locks and clocks around it.
