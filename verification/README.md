# iris

The verified core of the Iris raster editor, written in Verus.

- `src/` is the library: blend-mode and colour-space identifiers,
  copy-on-write tiles and the bounded tile cache, the layer tree and its
  edits, the undo stack with LZ4 tile snapshots, and the Photoshop (PSD)
  and OpenRaster (ORA) formats: header and resource parsing, layer records,
  the layer-and-mask section, hierarchy rebuilding, `stack.xml` writing and
  parsing, and the ORA ZIP container. Its own functions are verified; the
  calls into `lz4_flex`, `quick-xml`, `zip` and a few `std` functions sit
  behind small trusted wrappers whose contracts say what those crates do.
- `app/` is ordinary Rust around it: files on disk, the `psd` parser (which
  must be guarded against panics), error types with `std` traits, the PNG
  codec supplied by the host, and the floating-point pixel maths (blend
  modes, sRGB encoding, the view transform).
- `tests/` exercises the library from outside.

Values that are floating point in the editor (layer opacity, dpi) are held
in the library as IEEE 754 bit patterns or fixed-point integers; `app/`
converts them.
