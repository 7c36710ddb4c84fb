# kernel

The decision-making core of a small x86-64 kernel for single-application
virtual machines, written in Verus with every contract proved.

- `src/memory.rs`: decoding the firmware memory map and planning how each
  usable entry is cut into 1 GiB, 2 MiB and 4 KiB pages.
- `src/interrupts.rs`: encoding interrupt gates and the descriptor table.
- `src/acpi.rs`: finding the ACPI root pointer and reading the root table.
- `src/vga.rs`, `src/vga/plain.rs`: the VGA text console as a state machine
  over its 80 by 25 cells.
- `src/boot.rs`: the steps taken on entry.
- `src/util.rs`: sizes, address moves and element walks.

`app/main.rs` is the hardware edge: it reads physical memory, writes the
text buffer, loads the descriptor table and runs the boot steps.
