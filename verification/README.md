# mountpoint_core

The parts of Mountpoint that decide something, written in Verus and proved.

- `singleflight`: a cache that computes the value of a key once and hands it out until it expires.
  `store` holds the trusted calls into `dashmap`, `quick_cache` and the clock.
- `logging`: which steps set up logging, which filter is in effect (`filter`), how a signal changes
  the verbosity (`verbosity`), what log files are called (`file_name`), and what is logged about
  a panic (`panic_report`).
- `credentials`: which calls make a credentials provider, and how a delegate answers a query
  (`delegate`).

The functions named `law_...` state what holds of several functions together.

`app` is ordinary Rust around the library: it awaits, opens files, listens for signals, and calls
the CRT.
