# clockmill

2D grid simulations (Conway's Game of Life and a D2Q9 Lattice-Boltzmann fluid),
with their data movement verified by Verus.

- `src/` is the verified library: rectangular grids, axis slices, 2D window
  convolution, the Game of Life step, wrap and slice read/write, the lattice
  streaming, reflection and border handling of the fluid simulation, and the
  row-major raveling of tensor coordinates. Contracts are stated over `Seq`
  views of the grids; the laws that relate several operations are public proof
  functions named `law_*`.
- `tests/` runs the library on concrete boards and lattices.
- `app/` holds what stays with the `burn` tensor backend: the float arithmetic
  of the fluid simulation (density, equilibrium, collision), random noise, and
  the conversions between tensors and the library's grids.
