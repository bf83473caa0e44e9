# nexus_kernel

The parts of an operating system kernel that decide things, verified with Verus:
the boundary that runs Linux programs, the drivers, the boot display and the
reports of processes that were ended.

Nothing in `src/` touches a port, a register or another program's memory. A
function there takes what was read and gives back what is to be done, in order;
its contract says exactly what that is. `app/` does it: it reads and writes,
sleeps and wakes, and asks the parts of the kernel that own processes, files and
sockets.

- `src/compat/` is the Linux boundary: calls, files, memory, signals, sockets,
  threads, waiting, windows.
- `src/drivers/` are the keyboard, the mouse, the clock, the speaker, the sound
  card, the PCI bus, the USB controller with its devices and disks, and the
  virtio disk, network card and display.
- `src/framebuffer/` and `src/display/` draw; `src/crash.rs` keeps reports.
- `src/table.rs`, `src/pairs.rs` and `src/names.rs` are the tables the states are
  kept in; `src/bytes.rs` and `src/text.rs` read and write numbers and texts.

What holds of several functions together is stated in the public proof functions
whose names begin with `law_`.

One thing is believed without proof: that `core::str::from_utf8` accepts the
byte strings that are UTF-8.
