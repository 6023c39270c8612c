# smplcache

Certified cache decisions for CDC-backed caches: instead of dropping every
cached query over a changed table, decide per query shape whether the change
can be ignored (preserve), folded into the cached aggregate (repair), or must
drop the entry (invalidate), and say why.

## Layout

- `src/` — the verified library (Verus).
  - `text`, `colset`: string order, number rendering, sorted column sets.
  - `evidence`: row images, boundary events and the evidence level inferred
    from what an event carries.
  - `cert`: the decision tree that certifies preserve / repair / invalidate.
  - `repair`: repair scenarios and the SQL Server / PostgreSQL statements.
  - `unionfind`, `geometry`, `lifts`: the coupling graph of shapes that are
    invalidated together, its components, cycles and hotspots, and the schema
    lifts proposed from it.
  - `numeric`: units and methods of public numbers.
  - `law`: contract descriptors, their validation and binding audit, law
    checks, validation artifacts and witnesses.
- `tests/` — tests of the library.
- `app/` — floating-point parts (dual prices, certified scalars, report
  scores, the density-matrix experiment, phi witnesses) and the parts that go
  through `dyn Any`, serde or thiserror.
