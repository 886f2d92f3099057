# omastudio_engine

The verified core of the OmaStudio photo engine, written in Verus.

- `src/` is the library. Every function in it carries a `requires`/`ensures`
  contract that Verus proves. It holds the engine's decisions and parsers:
  the command line, the daemon's command handling, theme files, folder
  listings and their order, export planning, ICC profile selection,
  histogram counting, the before/after split view, PPM output, bounded
  subprocess capture, checks on file metadata and directory walks, and the
  decoding of JPEG/TIFF images and their EXIF fields through the `image`
  and `kamadak-exif` crates.
- `src/*` calls outside crates only through small trusted items marked
  `#[verifier::external_body]`. Each one's doc comment says what its
  contract claims of the outside function.
- `app/` is the program around the library: `main`, file and process I/O,
  the LibRaw bindings and the floating-point colour pipeline, which Verus
  cannot hold. It calls the library for every decision that can be verified.
- `tests/` runs the library on concrete values.
