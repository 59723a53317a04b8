# paperos

PaperOS drives an IT8951 e-paper controller from Linux. This crate is its
verified core, written in Verus:

- `display`, `graphics`, `layout`: geometry, 8-bit framebuffers with
  clipping, blending and right-angle rotation, and linear layout.
- `runtime`: refresh planning (no-op, aligned partial, full) with a
  partial-refresh budget and generations that make stale plans unusable.
- `it8951`: the controller protocol over a `Transport`, with a ghost log of
  every transaction, and the full-screen display backend.
- `linux`: manual chip-select SPI transactions as a state machine, the
  panel profile rules, and the big-endian word encoding.
- `bringup`: the fail-closed rules and sessions of the hardware diagnostic.
- `simulator`, `daily`: an in-memory display and the placeholder daily page.

`app/` holds the command-line programs: argument parsing, TOML profile
loading, Linux SPI and GPIO access, signals, timing and file output.
