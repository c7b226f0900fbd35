# ntoseye

The core of a debugger for Windows guests that run under KVM/QEMU or VMware: a
library whose behaviour is stated in contracts and proved by Verus.

- `src/memory.rs`: the four-level page-table walk, and reads and writes of
  virtual memory through it; `src/memory_laws.rs`: what holds of them as a whole.
- `src/host/`: finding the virtual machine among the host's processes, and guest
  memory among its mappings.
- `src/gdb/`: breakpoints: setting, removing, enabling, disabling, masking, hits.
- `src/repl/`: the interactive surface: what a stop of the target leads to, how
  the target is run, what is printed, the commands, what completion knows.
- `src/view/`: value trees and their renderings.
- `src/pe.rs`, `src/text.rs`, `src/ui.rs`, ...: sections of an image, text, style.
  `pelite` views the headers of an image in place, which takes an eight-byte
  boundary of our own memory; bytes from a guest promise none, so it is given a
  copy laid out in 64-bit words.

What the debugger does to the world is a sequence of decisions and effects: a
function of the library takes an answer and says what to do and what to find out
next. `app/` carries that out: it reads `/proc`, moves bytes between processes,
prints, and runs the loops. What the library needs of a transport it takes
through the trait `DebugBackend`, and of memory through `MemoryOps`.

Laws that relate several functions are public proof functions whose names begin
with `law_`. The few contracts that are believed rather than proved stand on
functions marked `external_body`, each with a comment that says what it claims:
calls into `owo-colors` (styles), `serde_json` (values), `tabled` and `textwrap`
(layout) and `pelite` (image headers). Of the standard library two functions are
believed besides those that Verus specifies: `String::push` and `Arc::clone`.
