# ezpz freedom analysis

After a geometric constraint system is solved, the Jacobian at the solution says
which variables are still free to move and which constraints merely repeat the
others. This crate holds that analysis.

- `src/analysis.rs`: `FreedomAnalysis`, the record of an analysis, and the
  `Analysis` trait.
- `src/dof.rs`: the decisions taken on what was measured of the Jacobian (rank and
  null-space dimensions, underconstrained variables, redundant constraints), with
  their contracts, laws and proofs.
- `src/error.rs`: why an analysis can be refused.
- `app/lib.rs`: the floating-point measurements, made with faer, that feed the
  verified decisions.
- `tests/`: the decisions on their own, and small sketches analysed at their solved
  configuration: their Jacobian is measured by finite differences and the test's own
  faer measurements feed the library's decisions (the measurements of `app/` are
  the same computation, but are not what these tests run).
