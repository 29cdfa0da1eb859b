# asahi

The logic of a kernel driver for the Apple AGX GPU family, verified with Verus.

- `src/` is the library. It works on plain values: what only the machine can answer is
  an argument, and what the machine has to do next is a result. Every function states
  what it computes, and the public proof functions named `law_*` state what holds across
  functions.
- `app/` is ordinary Rust around the library: calls into the kernel, memory shared with
  the GPU and its firmware, locks, waiting and floating point arithmetic. How the
  structures of a firmware version are laid out in memory is what `app/layout.rs` asks
  for.
- `tests/` runs the library on concrete values.

## Modules

| Module | Subject |
| --- | --- |
| `slotalloc` | slots that a fixed set of users share, with tokens to get the last one back |
| `sharing` | what holds of everybody who shares slots, whatever happens |
| `event` | event slots and stamp values |
| `workqueue` | command rings, batches and their completion |
| `channel` | message rings between driver and firmware, events and the firmware log |
| `mmu` | address spaces, context slots, mapping and unmapping, the handoff lock |
| `allocator`, `drm::mm` | placement of GPU objects |
| `gem`, `file` | memory objects and what a client's requests are answered with |
| `buffer` | the tiler buffer and its scenes |
| `render`, `microseq`, `fw` | tiling, microsequences and the commands of a frame |
| `regs`, `hw` | registers and hardware configuration |
| `initdata` | the data that the firmware starts with |
| `gpu`, `driver` | starting the firmware, submission, hangs, power-off, requests |
| `of`, `rtkit`, `io_pgtable`, `ioctl`, `drm`, `error` | the kernel interfaces that the driver uses |
