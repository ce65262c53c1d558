# rusty_libc

Pieces of a C library for x86-64 Linux, with their behaviour proved.

- `src/` is the verified library:
  - `cstring`: `strlen`, `strcmp`, `strncmp`, `toupper`, `tolower` and
    `c_str_to_str` on `c_char` slices that hold their NUL;
  - `memory`: `memcpy`, `memset`, `memcmp`, `bcmp` on byte slices;
  - `heap`: `malloc`, `calloc`, `realloc`, `reallocarray`, `free` as state
    machines that ask for mappings, header reads and writes, copies and
    unmappings, and hand back the resulting pointer;
  - `io`: streams, the chunked write loop of `write_buf`, and the decisions
    of `fputc`, `fputs`, `puts` and the standard-output formatter;
  - `printf`: formatting into the fixed `printf` buffer;
  - `start`: where `argv` and `envp` lie on the initial stack.
- `app/` exports the C functions (all but `printf`, whose C-variadic form
  needs an unstable compiler feature; it is a Rust function taking a slice of
  arguments), makes the system calls, reads and writes raw memory, and drives
  the state machines of `src/`.
- `tests/` runs the library on concrete inputs.
