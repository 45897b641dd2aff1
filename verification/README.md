# bbsg

Aggregation of the assessment records of an electricity distribution grid:
transformer records are added up into substation records, substation records
into province records; derived figures (saturations, unbalance flags) are
recomputed, substations are ranked and normalised, and benefit projections are
attached year by year.

The values of a record are numbers whose arithmetic the library leaves to its
caller: every operation takes the arithmetic it needs (addition, maximum,
division, a zero test, a threshold) as closures, and its contract states the
result over the outcomes those closures allow. The program in `app/` runs the
library with `f32` values and does all file and network work.

Layout:

- `src/vartype.rs`: the assessment variables, their positions and how each one
  is combined.
- `src/ops.rs`, `src/assvar.rs`: element-wise operations over values and
  variables.
- `src/record.rs`: the record type and its combinations (`add`, `max`, `min`,
  `nor`, `weigh`, `div`, `copy`, `sum`), with the running-maximum law.
- `src/recalc.rs`, `src/benefits.rs`: derived figures and benefit projections.
- `src/subobj.rs`: the benefit totals of a substation.
- `src/rank.rs`: ranking by key, largest first.
- `src/aoj.rs`: the list of offices serving a substation.
- `src/san.rs`: thousands separators.
- `src/schedule.rs`, `src/counts.rs`: cost schedules, projection years, device
  counts.
- `src/engine.rs`, `src/web.rs`: substation information and the substation page.
- `src/stage.rs`: a whole stage: substation records summed from their
  transformer records, province records from their noted substations, the
  running maximum, the rankings by the three use-case values, and the records
  divided by the maximum.
- `app/`: the command-line driver, file loading and saving, the web handler.
