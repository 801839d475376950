# rust_options

The verified core of an equity-options toolkit (Black-Scholes, binomial
trees, Monte Carlo, implied volatility, SVI smiles, a Yahoo Finance client,
an ONNX volatility model and a small web API).

- `src/` is the library, checked by Verus: the xorshift64 generator that
  drives the Monte Carlo engine, the plain data types of the pricer, its
  errors, the reading of option-type and exercise-style names, the splitting
  of symbol lists, the acceptance of Yahoo crumb tokens and the shape check of
  the volatility model's statistics.
- `app/` is the program around it: the floating-point pricers, network and
  file I/O, the ONNX model and the web server.
- `tests/` exercises the library.
