# i_physics

Deterministic fixed-point 2D rigid-body physics for games, written in Verus.
Every quantity is an integer in a fixed-point format; every function of the
library states its result in `requires`/`ensures` contracts over
mathematical models and is proved free of overflow and panics.

## Layout

- `src/quantity/` — positions, lengths, velocities, accelerations, angles
  (binary angles with integer CORDIC sine and cosine), mass, force, damping,
  and one-tick integration.
- `src/geometry/` — derived world points, bounded raw vectors, Q30 unit
  vectors and axis-aligned bounds (the latter through `i_float::IntRect`).
- `src/collider/` — circles, convex polygons (validated, canonicalised and
  packed), composite colliders, mass properties and inverse inertia; the
  polygon model and its lemmas live in `polygon.rs`, the laws on convex
  construction in `convex_laws.rs`.
- `src/collision/` — contacts and manifolds, circle/circle, circle/convex and
  convex/convex narrow phases, and the dispatcher over collider pairs.
- `src/body/`, `src/joint/`, `src/world.rs` — bodies, sleep state, materials,
  distance/rope/mouse joints and the sorted body storage.
- `src/picking.rs` — point-in-collider queries and body picking.
- `tests/` — executable tests of the library.
- `app/` — conversions between floating-point units and the fixed-point
  types, which stay outside the verified library.
