# SIB proof-envelope kernel, verified with Verus

- `src/lib.rs`: the envelope format. `ProofEnvelope::parse` checks a buffer
  (size, 8-byte alignment, magic number, endorsement count, exact length) and
  decodes the 2568-byte little-endian record, returning it with the signature
  section; `is_epoch_valid` is the replay window; `get_signature` slices one
  ML-DSA-65 signature out of the section. The layout is stated as
  `ProofEnvelope::spec_bytes`, and the refusals as `parse_error`.
- `src/aggregator.rs`: M-of-N consensus. `ConsensusPolicy`, the
  `AggregatorEngine` that collects up to N envelopes and aggregates them into
  an `AggregatedBatchProof` (valid count, quorum, rotating-XOR hash), and its
  hexadecimal rendering.
- `tests/`: the original's tests (one expectation of `test_aggregator_epoch_drift_protection`
  corrected, see the comment there) and further scenarios.
- `app/`: `Display`/`Error` for validation errors.
