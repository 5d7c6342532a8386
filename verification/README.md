# riscv64_emulator

A RISC-V 64-bit system emulator whose logic is verified with Verus.

`src/` is the library:

- `cpu` is the hart: RV64IMAFDC with the Zbc, Zicbom, Zicboz, Zawrs and Sstc
  extensions and most of Zba, Zbb and Zbs, machine, supervisor and user mode. Of the
  latter three, the immediate forms are known for amounts below 32 only, RORIW for
  24 only, and ZEXT.H is missing; the privileged returns are not refused in any
  mode. `cpu/decode` holds the
  instruction fields, `cpu/base`, `cpu/atomic`, `cpu/system`, `cpu/float` and
  `cpu/compressed` the instructions, `cpu/traps` traps and interrupts,
  `cpu/execute` the step.
- `alu` is integer arithmetic, `csr` the control and status registers, `mmu` the
  Sv39, Sv48 and Sv57 page tables.
- `bus` is the memory map; `mrom`, `dram`, `flash`, `plic`, `uart`, `virtio` and
  `virtio_rng` are the memories and devices on it, `virtq` the queues of the latter
  two.
- `machine` starts the hart and keeps its time.

Every executable function says in its contract what it computes, over a model of
the state (`CpuView`, `BusView` and so on). The proof functions whose names start
with `law_` state what holds of the machine as a whole; those about translated
memory are in `mmu_laws`, `cpu/memory_laws` and `cpu/crossing_laws`, those about
steps and traps in `cpu/laws` and `cpu/trap_laws`.

`app/` is the program around the library. The hart asks it for floating-point
results, and for the disk and random-number I/O that the VirtIO devices need; it
feeds in the keyboard and the wall clock, and prints what the serial port sends and
the exceptions that the hart reports.
