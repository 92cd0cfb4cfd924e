# turboquant (verified core)

TurboQuant compresses the key/value cache of transformer attention to a few
bits per coordinate: a seeded randomized Hadamard rotation, Lloyd-Max scalar
quantization of each coordinate (PolarQuant), bit-packing of the indices, and
optionally a 1-bit QJL sketch of the residual.

## Layout

- `src/` — the library, verified with Verus:
  - `bitpack` — 2-, 3- and 4-bit packing of quantization indices into
    `ceil(n * bits / 8)` bytes; the round trip and the bit-stream layout are
    proved.
  - `rotation` — the seeded ±1 signs of the rotation and their sign-bit
    masks.
  - `backend` — the backend tiers, their choice from the CPU's features,
    the power-of-two dimension check, the sign flip on `f32` bit patterns
    (its own inverse), and the cause of a failed CUDA initialisation.
  - `qjl` — the QJL compressor's rotation and its sign-bit sketch.
  - `turboquant` — how the Prod variant splits the bit budget.
  - `shape` — dimension checks shared by the compressors.
  - `sizes` — byte sizes of compressed vectors and of a compressed cache.
  - `error` — the error type.
- `app/` — the floating-point layer on top of the library (Hadamard
  transform, SIMD kernels, codebooks, PolarQuant, QJL estimation, TurboQuant,
  the KV cache, rayon batching and the CUDA device).
- `tests/` — tests of the library.
