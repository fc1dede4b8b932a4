# anotherps4

The core of a PS4 emulator, with its logic verified by Verus: the ELF/SELF and PSF parsers,
the symbol resolver and NID table, the module linker and its relocations, physical and
virtual memory bookkeeping, the guest kernel's file, thread, time and event-queue services,
the HLE stubs, export and system-call dispatch, and the PM4 command decoder.

Layout:

- `src/` — the verified library. Each module states its behaviour in `requires`/`ensures`
  over spec functions; public `law_*` proof functions state properties that relate several
  operations (what freeing an allocation gives back, what a mount resolves to, ...).
- `tests/` — ordinary Rust tests of the library.
- `app/` — the emulator program around the library: command line, window and Vulkan
  renderer, host memory mappings, signal handlers, and the reads and writes of guest memory
  that the library's decisions call for.
