# matter

Constitutive laws of a particle simulation: stress, plastic return, volume update and
step bound of fluids, gases, elastic solids, soils and cavitating liquids, each with a
contract that Verus proves.

Numbers are IEEE 754 binary32 and binary64 values held as bit patterns. Their
arithmetic is part of the library and is proved to round correctly, so a contract over
`Binary32` says which bits come out.

- `src/binary`: the numbers, their arithmetic, and laws of rounded arithmetic. `error.rs`,
  `error_double.rs` and `relative.rs` bound rounding errors in real numbers.
- `src/linalg.rs`, `src/mechanics.rs`: 2x2 matrices and shared formulas.
- `src/numerics.rs`: the routines that have no one right rounding (powers,
  exponentials, singular values). An engine hands them in; contracts speak of what they
  return.
- `src/model.rs`, `src/params.rs`, `src/particle.rs`, `src/wrappers.rs`: what a solver
  asks of a material.
- `src/fluid.rs`, `src/bingham.rs`, `src/gas.rs`, `src/granular_fluid.rs`,
  `src/corotated.rs`, `src/elastic.rs`, `src/no_compression.rs`, `src/nacc.rs`: one
  material each.
- `src/cavitating_eos.rs`, `src/cavitating_table.rs`, `src/cavitating_fluid.rs`,
  `src/boiling_mixture.rs`: liquids that boil or cavitate.
- `src/cavitating_curve.rs`, `src/cavitating_patch.rs`, `src/cavitating_rise.rs`,
  `src/cavitating_slope.rs`, `src/cavitating_nodes.rs`, `src/nacc_reload.rs`: proofs of what
  takes an error analysis: how the pieces of the pressure curve follow each other, that it
  rises, that the sound speed is its slope, where the nodes of a table lie, and that a soil
  remembers its cap.
- `src/optical.rs`: optical constants: the measured absorption of water, averaged with a
  published fit of the standard observer.
- `app`: bindings to native floating point, to `glam`, and to the byte layout of the
  shaders.

A public proof function whose name starts with `law_` states a property of the library
as a whole.
