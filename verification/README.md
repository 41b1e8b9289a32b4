# maarch64

The core of a user-mode AArch64 emulator, written in Verus and verified against its
contracts:

- `src/cpu` — register state, with a mathematical view (`CpuView`).
- `src/memory` — guest memory as a list of segments, with reads, piecewise writes,
  mappings, protection changes and the program break.
- `src/decoder` — the decoded form of an instruction, as plain values.
- `src/interp` — instruction semantics: each operation is a spec function and
  `Interpreter::execute` is proved to follow it.
- `src/syscall` — Linux and Darwin system calls, decided from the register state; calls
  that need the host come back as actions to perform.
- `src/loader` — ELF and Mach-O images laid out in guest memory, with the initial stack.
- `src/vfs`, `src/text` — the mock `/etc/passwd` and number rendering.

`app/` holds what runs around the library: decoding words with `bad64`, host system
calls through `libc`, file reading, floating-point instructions and the Cranelift block
compiler.
