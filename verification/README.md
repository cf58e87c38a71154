# dystopia

The decision logic of the Dystopia dodgeball simulation, written in Verus and verified:
satisfiability tests and agent beliefs, goal-oriented action planning, the game state and the
effect of every simulation event on it, collisions and scoring, statistics from game logs,
and the small parsers and protocols of the services around the simulation.

Physics (bodies, rays, impulses) and everything that needs floating point stay with the
caller: the library takes what the physics world measured as plain values (positions and
charges as the bit patterns of `f32` values, costs in thousandths) and decides the rest.

Layout:

- `src/` the verified library; each public function states its result in its `ensures`,
  and the `law_*` proof functions state properties that span several functions.
- `tests/` tests of the library on concrete values.
- `app/` the service plumbing that cannot be verified: NATS connections, request routing and
  remote calls, logger start-up, and the serialized forms of library types.

Not in this crate, because it rests on floating point or on types kept outside it:

- the physics world itself (bodies, colliders, ray and shape queries, navigation meshes) and
  the whole-game loop that steps it;
- the drawing of a combatant's limbs and attribute values, which are floating-point values
  drawn from a normal distribution over the world's body and attribute types;
- belief tests given as arbitrary closures: a test here is one of the fixed comparisons of
  `SatisfiableField`, whose meaning the contracts state.
