# xrt

The verified core of an X-ray optics ray tracer.

`src/` is a Verus library:

- `beam` — the ray container, one column per quantity and generic over the
  scalar and complex types: ray states and their codes, selection of rays by
  index, the good rays, concatenation of beams, and the optional columns
  (amplitudes, elevation, parametric coordinates, angles, orders, reflection
  counts), which always have one entry per ray when present.
- `transforms` — rotation-sequence strings (`RzRyRx`, `-RzRyRx`).
- `data` — the periodic table, scattering-table selection and NPZ key names,
  element resolution, per-element tables, and the scanners for the lines of
  `f0_xop.dat` and `AtomicData.dat`.
- `crystal`, `material`, `multilayer`, `surfaces` — geometry and kind names.
- `interp` — the bisection that brackets a point among sorted knots.
- `screen` — histogram bins of a detector screen.
- `text` — prefixes, substrings, whitespace splitting, trimming, and unsigned
  decimal integers.

`app/` holds the floating-point arithmetic (propagation, rotations, splines,
statistics, screens) and the file I/O, built on the library.
`tests/` exercises the library.
