# v2xw_metrics

The measurement layer of a V2X simulation: it reads the records of a run, computes metrics
window by window, and checks that what the run recorded is consistent. The library under
`src/` is verified with Verus; `app/` holds what cannot be: JSON, Arrow float arrays, Wilson
intervals and the registry of a host.

* `quant`, `bins`, `stats`, `distribution`: numbers are exact quotients of integers, rounded
  onto a declared grid on their way out, and compared as integers.
* `channels`, `def`, `card`, `cards`, `catalog`: the records, the metric definitions and the
  model cards.
* `comms`, `load`, `safety`, `awareness`, `overhead`, `frag`, `runtime`, `latency_metrics`,
  `detection_metrics`: one provider each. A provider is a function of the records that it was
  given: `after` says what one record does, `samples` what a window reports, `flushed` what
  is left.
* `provider`, `providers`: a set of providers, with their channels resolved.
* `ledger`, `invariants`: the records of a run and the checks on them. `invariants::laws`
  says of each check when it holds; `invariants::windows` says that the byte rates and the
  stage shares that are reported pass theirs; `drained` says that a window is reported once.
* `gate`, `gate_laws`: which uncalibrated defaults a model may have at the high tier, and what
  the verdict does not depend on.
* `arrow_out`, `outside`: the calls into `arrow`, `serde_json` and `std` that the library
  makes, each with the contract that is taken on trust.
* `text`, `keyed`, `arrange`, `tally`, `wide`: texts, ordered maps, stable sorting, exact totals
  and arithmetic beyond 128 bits.

Inputs are whole multiples of the recording's units (nanoseconds, millimetres, hundredths of a
decibel), so the library holds no floating-point number.
