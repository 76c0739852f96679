# miner-core: single-leg anomaly scans

A Verus library for the single-instrument anomaly scans of the miner engine.

- `src/` is verified: the typed request parameters (`params`), the rules by
  which each scan reads them (`resolve`, and one module per scan under
  `anom/`), the checks each scan makes on its input before any statistic is
  computed, the timestamps that carry each kind of return, the binary
  segmentation of the CUSUM break scan (`anom::segmentation`), the
  running-peak sweep of the drawdown profile (`anom::underwater`), exact
  integer lag roots (`lagroot`), and the scan registry (`registry`).
- `app/` is ordinary Rust around it: the JSON parameter schemas and the
  conversion of JSON parameters into `Params`, the messages of scan errors,
  and the floating-point statistics of each scan, which call into the
  verified index logic where they have any.
- `tests/` exercises the library from outside.
