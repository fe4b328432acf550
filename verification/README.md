# ts_decomposition

Time-series decomposition into trend, seasonality and noise, by singular
spectrum analysis (trajectory matrix, truncated SVD, diagonal averaging) and
by a classical moving average with period-averaged seasonality.

- `src/` is the verified library: the index structure of both methods.
  - `trajectory`: the trajectory (Hankel) embedding of a series, and the plan
    that says how many singular components are computed and which of them
    form the trend and which the seasonality.
  - `diagonal`: grouping matrix cells by anti-diagonal, with the laws that
    every cell lies on exactly one anti-diagonal and that the anti-diagonals
    of an embedded series repeat the series.
  - `classical`: the windows of a moving average (full symmetric windows,
    boundary positions taking the nearest full window), the grouping
    of samples by position within a period, and spreading one value per
    position over the series.
- `app/` is the program: it generates or loads the data, does the
  floating-point arithmetic (power-iteration SVD, averages, errors) on
  `ndarray` arrays through the library's index structure, and plots with
  `plotters`. Run with the argument `report` for the synthetic-only report
  that compares both trends with the ground truth.
- `tests/` runs the library on concrete values, and the numeric invariant
  checks of the decomposition.
