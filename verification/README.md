# fse_rust

Byte formats and maintenance rules of `.fse` archives, written in Verus with
their contracts proved.

- `src/` is the verified library: little-endian and variable-length integer
  codecs (`bytes`, `compact`, `cursor`), field encoder metadata and derivation
  (`encoding`), and the archive formats and rules under `persistence`: payload
  headers, manifests, typed record batches and their columnar and row-oriented
  sections, row-mapped index framing, typed query index framing, row
  tombstones, compaction, footprints and maintenance decisions.
- `app/` holds the file I/O around the library and the serde copies of its
  archive types.
- `tests/` runs the library on concrete values.
