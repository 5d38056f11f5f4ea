# taser_em

A finite-difference time-domain (FDTD) solver for Maxwell's equations in one, two and three
dimensions, with perfectly matched layers, dipoles and total-field/scattered-field plane waves.
Every function of the library has a contract that Verus proves.

- `src/` is the library. Its arithmetic is abstract (`scalar::Scalar`): a contract says which
  operations, in which order, a number is the result of. Shapes are abstract too: a simulation asks
  two closures where the bounds of a shape are and whether a point lies in it.
- `tests/` runs the library on single precision numbers and on formulas.
- `app/` is a program around it: parry3d shapes, khal buffers, a few examples and a benchmark.

Modules, from the bottom up: `scalar`, `symbolic`, `vector`, `axis`, `index`, `vect`, `cells`,
`layers`, `saturating`, `nonzero`, `geometry` hold the mathematics; `params`, `polarization`, `update`,
`polarized`, `tabled`, `clamped`, `whole_vector`, `fdtd1`, `source_terms`, `tfsf`,
`boundary_kernels` hold the kernels; `materials`, `pml`, `stability`, `source`, `tfsf_setup`,
`plane_waves`, `state`, `simulation`, `readiness` lay a simulation out; `boundary_condition`,
`boundary`, `host`, `launch`, `pipeline` record and run it; `readback`, `backend`, `color`,
`visual`, `fdtd_1d`, `error` show it.
`launch_laws`, `wave_laws` and `mask_laws` prove what a launch of a kernel over a whole grid amounts
to, `update_laws` how the two updates relate, and `box_laws` what the box around a simulation
contains. Where a law needs more of the arithmetic than that it is a function of its operands, it is
stated up to an `equivalence` or an order that the arithmetic respects; `formula_laws` shows that
formulas in whole numbers have one.
