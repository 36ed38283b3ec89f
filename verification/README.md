# ferricml

A machine-learning toolkit whose core is verified with Verus.

- `src/` is the verified library: tensors over byte storage (`tensor`, `storage`, `shape`,
  `dtype`, `device`), the row-major layout rules (`layout`), the shape and index rules of the CPU
  kernels and the element-moving `transpose` (`ops`), layer constructors (`nn`), the IR builder
  (`ir`), the GGUF encoder (`gguf`, `bytes`), decision-tree ensembles (`tree`), the Bayesian
  network graph (`pgm`) and the autograd tape (`autograd`).
- `app/` holds what computes in floating point (the kernels, normalization layers, losses),
  the GGUF file writer that hands the encoder's bytes to an output, JSON loading, and the
  copies of library types that carry serde and thiserror derives.
- `tests/` runs the library on concrete values.
