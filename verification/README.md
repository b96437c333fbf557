# elinos

The logic of the elinOS RISC-V kernel as a library verified with Verus, and a
small host program around it.

## Layout

- `src/` — the verified library. Every executable function carries a
  `requires`/`ensures` contract over a mathematical model of its data
  (`Seq`, `Map`, spec functions and views), and Verus proves each body
  against it. Public proof functions whose names start with `law_` state
  properties that relate several operations.
  - `commands.rs`, `shell.rs` — command parsing, path resolution, the line
    editor and command history.
  - `memory/` — memory layout detection, the slab allocator, the memory
    mapping registry.
  - `filesystem/` — FAT32 (boot sector, FAT, directory clusters, volume
    operations) and ext2 (inodes, extents, block bookkeeping).
  - `elf/` — ELF64 parsing, load planning and what running a program asks.
  - `syscall/` — system call decoding, processes, terminals, memory calls.
  - `virtio/`, `drivers/` — VirtIO block and GPU protocol state, GPIO, SPI
    and the SD card protocol.
  - `graphics/`, `reports.rs` — framebuffer drawing, text console and the
    figures the shell commands print.
  - `collections.rs` — declarations of the `heapless` types the library
    holds.
- `app/` — a host program: it mounts a FAT32 disk image, runs the shell on
  standard input and output, and performs the reads, writes and prints that
  the library decides on; `app/sdcard.rs` drives an SD card through the
  registers of a memory-mapped SPI controller.
- `tests/` — tests of the library on concrete values.
