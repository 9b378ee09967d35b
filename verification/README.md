# hastic

Detection of patterns, threshold crossings and seasonal anomalies in a metric
read from Prometheus or InfluxDB.

`src/` is the library, verified with Verus:

- `services/segments_service.rs` — the table of labeled and detected segments:
  queries by range, deletion, and insertion that merges a new segment with every
  segment it intersects. A pairwise-disjoint table stays so, unless a stored
  segment with `from > to` lies within the merged span without meeting the new
  one: such a segment is neither merged nor removed.
- `services/analytic_unit_service.rs` — the table of analytic units: at most one
  is active; resolving a configuration activates its kind.
- `services/analytic_service/analytic_service.rs` — the analytic service as a
  state machine from requests and task reports to actions.
- `services/analytic_service/analytic_unit/` — configurations and their patches,
  and the integer part of the three detectors: runs of marked points, merging of
  pattern windows, the seasonal model's learning positions and lookup position.
- `config.rs`, `api/` — configuration resolution, request parameters, API models.

`app/` is the server around it: configuration reading, SQLite storage, the data
source, the floating-point scoring and the SVM, the async runtime and HTTP routes.
