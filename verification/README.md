# planner

The decisions of a query planner, as a Verus library: every function states in
its contract what it returns, and Verus proves it.

The library (`src/`) works on plain values. What it needs to know of catalogs,
of operators and of costs comes in as arguments. Where it decides on work that
is done elsewhere, it says what is to be done next, and is told what came of it.

- `list`, `relids`, `rel`, `expr`, `exprnode`, `error`: lists, sets of relations,
  relations, expressions, the parts of each kind of expression, errors.
- `matching`, `knapsack`, `rollup`, `groupingsets`, `groupingsets_paths`,
  `sortgroup`: grouping sets, from the smallest number of rollups to the choice
  of which of them are hashed.
- `grouping`, `aggorder`, `upperpaths`, `targets`, `flatten_group`: what happens
  above scans and joins: grouping, DISTINCT, ORDER BY, LIMIT, changes of tables.
- `restriction`, `distinctness`, `joinremoval`, `selfjoin`: joins that a query
  does not need.
- `path`, `plan`, `quals`, `tlist`, `sortcols`, `planscan`, `planindex`,
  `planjoin`, `plangroup`, `planagg`, `planmodify`, `planfinish`, `scanplan`,
  `joinplan`, `appendplan`, `recheck`, `plannumber`, `planrole`, `createplan`,
  `reparam`: plans out of paths.
- `clausesel`, `extstats`, `mcvmatch`, `dependencies`, `statuse`, `arraysel`:
  how many rows satisfy a clause, as a formula or as the choice of statistics.
- `cte`, `geqo`, `cluster`: queries in WITH, the genetic search for a join
  order, and the plan for CLUSTER.

Floating-point numbers are given by their bits in the library. `app/` computes
with them, and runs the loops around the library's decisions.
