# ridge-typecheck

The type checker of the Ridge language, written and proved in Verus: unification
and generalisation, type classes with functional dependencies, records and rows,
quoted queries, migration hooks, and the diagnostics with their texts.

- `src/types.rs`, `src/ast.rs`, `src/ctx.rs`, `src/table.rs`: what is worked on.
  A type has a view (`Ty`), a scheme too (`Poly`), and a diagnostic (`Diag`); the
  contracts speak of those.
- `src/unify.rs`, `src/instantiate.rs`, `src/subst.rs`, `src/rows.rs`: unification,
  instantiation and generalisation.
- `src/scc.rs`, `src/call_graph.rs`, `src/decls.rs`: the functions of a module,
  component by component.
- `src/classes.rs`, `src/fundeps.rs`, `src/plans.rs`, `src/solve.rs`, `src/dicts.rs`:
  type classes.
- `src/records.rs`, `src/interp.rs`, `src/pipe_propagate.rs`: rules of expressions.
- `src/qexpr.rs`, `src/quote.rs`, `src/group.rs`: quoted queries.
- `src/*_seeds.rs`, `src/seeds.rs`, `src/prelude.rs`, `src/stdlib_env.rs`,
  `src/setup.rs`: what is in scope before a module is looked at.
- `src/migrate.rs`, `src/rendered.rs`, `src/scan.rs`, `src/shapes.rs`: migration hooks
  and the texts of the version history.
- `src/module_check.rs`, `src/workspace.rs`: modules and workspaces.
- `src/error.rs`, `src/orphans.rs`, `src/render.rs`, `src/renaming.rs`, `src/names.rs`,
  `src/suggest.rs`, `src/diag.rs`: diagnostics.
- `src/fx.rs`, `src/small.rs`, `src/text.rs`: hash tables, small lists and texts. What
  is taken on trust from `rustc-hash`, `smallvec` and the standard library stands in
  these three files.
- `app/`: printing, float literals, and the passes behind a trait of the rest of the
  compiler.

Inference of expressions itself, the binding of patterns, the check of capabilities
and the reading of the types that class methods are written with are parameters of
the library: a function that needs one takes it as a closure and states what it hands
over and what it does with the outcome. What such a closure may need is told by a cost
per expression, pattern or written type: with room for the costs there is room for
everything.
