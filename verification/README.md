# spar_heave_pitch

Time-domain simulation of the coupled heave-pitch response of a truss spar
platform in a JONSWAP sea, with Welch spectra of the response and a summary
figure.

- `src/` is the verified library: the segment schedule and the one-sided bin
  weights of the Welch estimator (`psd`), and the sample decimation of the
  phase portrait (`plotting`), with their contracts and laws.
- `app/` is the program: the floating-point physics (parameters, wave
  synthesis, equations of motion, Dormand-Prince integration), the FFT-based
  spectral arithmetic and the figure, built on the verified library.
- `tests/` exercises the library on concrete values.
