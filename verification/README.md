# faust-state

The parameter state of a [Faust](https://faust.grame.fr) DSP, shared between the thread that
computes audio and the thread that controls it, written and verified in
[Verus](https://github.com/verus-lang/verus).

- `src/` is the library. Its contracts are proved; what holds across its parts is stated and
  proved in `src/laws/`. Parameter values are kept as the bit patterns of 32-bit floats.
- `app/` runs a DSP behind the library: it lets the DSP declare itself, sets and reads its
  parameters, calls its computation, and reads and writes the floating-point status register.
- `tests/` runs the library on concrete values.

The library trusts the ring buffers of `rtrb`; what it claims of them stands in
`src/channel.rs`.
