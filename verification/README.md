# ssimulacra2 (verified worker core)

`src/` is a Verus-verified library holding the integer logic of an
SSIMULACRA2 scoring worker:

- `protocol` — incremental reader and writer of length-prefixed requests
  (tag, width, height, pixel format, payload of at most 512 MiB), with the
  laws that a written request reads back unchanged, that the reader never
  asks for bytes past the request it is reading, and that trailing bytes do
  not change a complete read;
- `payload` — decoding of RGB8, RGB16 (little endian) and PNG payloads into
  integer samples, with exact size checks; image payloads are decoded by the
  `image` crate (format guessed from the bytes) behind one trusted wrapper,
  and a verified function turns its outcome into pixels or an error;
- `session` — the worker's state machine (at most one reference; an unknown
  tag is a protocol error that ends the session whatever its payload; for
  `'R'` and `'S'`, load or score, or answer an error and go on);
- `gaussian` — the column stripes of the vertical blur pass, the gathering of
  per-stripe buffers into output rows, and the tap positions of a recursive
  scan;
- `frame` — the dimension rules of a precomputed reference frame, and the
  frame itself (its dimensions kept at least 8x8 as a type invariant).

`app/` is ordinary Rust: the stdin/stdout loop of the worker, the conversion
of integer samples to floating-point RGB, and the floating-point passes of
the recursive Gaussian blur, and the building and scoring of reference
frames through a `Pyramid` trait. The multi-scale metric itself (SSIM and edge-difference maps over the
downscaled pyramid), the blur's filter coefficients and a `main` are not part
of this crate: nothing here implements `Pyramid`, so the worker cannot score
on its own. `tests/` exercises the library.
