# vibeos

The core of the VibeOS kernel (boot name: Aperture OS) as a library whose
behaviour is stated in contracts and proved with Verus.

## Layout

- `src/` — the verified library. Each module holds the data structures and
  decisions of one kernel subsystem, with spec functions that say what each
  operation does and proof functions for the properties that span
  operations:
  - `time` — the millisecond clock;
  - `fs` — pipes (bounded FIFO byte queues) and per-process file
    descriptor tables with `read`, `write`, `dup`, `close`, `seek`, `fstat`
    and `pipe`;
  - `scheduler` — the round-robin task scheduler; `win32` — the thread
    scheduler and PE section mapping of the Windows compatibility layer;
  - `drivers` — PS/2 and PL050 keyboard and mouse decoding, the framebuffer
    console, the serial line's byte stream;
  - `arch` — initial stack frames, segment selectors, the scancode queue;
  - `net` — Ethernet, ARP, IPv4, TCP and UDP header parsing and frame
    delivery;
  - `ipc` — per-task mailboxes;
  - `syscalls` — decoding of system call numbers and arguments;
  - `userland` — the ELF64 loader's checks and load plan;
  - `boot_screen` — the boot framebuffer's quadrant pattern;
  - `libc` — the C library's string, memory and allocation routines.
- `app/` — the kernel image around the library: the boot entry point,
  port I/O, interrupt glue, stack switching and the logger. It hands the
  library plain values and carries out what the library decides.
- `tests/` — tests of the library on concrete values.
