# HXNU kernel core, verified

The logic of the HXNU x86_64 hybrid kernel as a library whose functions carry
`requires`/`ensures` contracts proved by Verus.

Layout:

- `src/` — the verified library (crate `lib`):
  - `exec`, `initrd`, `vfs`, `devfs`, `procfs`, `fat`, `block`: executable formats,
    the `cpio` boot archive, the file tree and its pseudo file systems;
  - `syscall/`: the Linux, Ghost and native system call personalities over an explicit
    per-process state (`state`), user memory (`uaccess`) and the file tree; `dispatch`
    maps numbers to calls, `ipc` serves pipes, `poll`, `futex` and `arch_prctl`, `probe` runs
    the boot smoke sequences, `laws` states what pairs of calls guarantee;
  - `mm/`, `compress/`: frame allocator, bump heap, page compression store and pager;
  - `sched`, `time`, `smp`, `arch/`: scheduler, clock, topology, CPU identity, task
    contexts and the system call trap frame;
  - `fb`, `tty`, `serial`, `log`, `power`, `init_exec`: the boot console, log records,
    the firmware reset register and the init hand-off.
- `tests/` — tests of the library on concrete values.
- `app/` — a hosted boot sequence that drives the library and does the I/O
  (`cpuid`, segment registers, I/O ports, files, standard output).

Hardware state and global singletons of the kernel are explicit values here: the
library takes the user memory, the system call state and the file systems as
arguments and returns what changed.
