# notch

The verified core of a Wayland top-of-screen notch.

- `src/` (Verus): battery readout from power-supply readings, the `HH:MM`
  clock text, splitting of visualiser frames, ARGB8888 pixel encoding, the
  layer-surface plans, and the compact/expanded state machine, each with its
  contract and the laws that tie them together.
- `app/`: the program around it — Wayland and Slint plumbing, reading
  `/sys/class/power_supply`, running `cava`, and the floating-point bar
  smoothing.
- `tests/`: the library's tests.
