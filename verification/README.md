# arz_predictor

The decision logic of the ARZ football predictor, written in Verus: every
function in `src/` carries a contract over mathematical models and is proved
against it.

- `src/` is the verified library: settlement of selections and coupons, system
  columns, the compound (katlama) series, candidate qualification and ranking,
  daily publications, lineup readiness, training labels, walk-forward folds,
  operational readiness and realized coupon economics. Public `law_*` proof
  functions state the properties that hold across calls.
- The few calls into outside crates (chrono and chrono-tz for time, serde_json
  for quality reports, sha2 for fingerprints) sit behind small trusted wrappers
  whose contracts name their results.
- `app/` is ordinary Rust around the library: a few reads from the SQLite store
  (readiness facts, the candidate engine's status, the day's publication, the
  settlement of a compound series), JSON shapes (serde), and the
  floating-point figures, metrics, calibration fit and comparisons whose
  outcomes the library receives as plain values. It does not hold the store's
  other operations (generating runs and coupons, drafts, settlement writes,
  imports, backtests).
- `tests/` runs the library on concrete values.
