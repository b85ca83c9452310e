# h264_reader (sequence parameter sets)

Parses H.264 sequence parameter sets (SPS) from the bytes of their RBSP,
verified with Verus.

- `src/bits.rs`: the bit-level model of a byte buffer (big-endian bit order),
  fixed-width fields and Exp-Golomb codes as spec functions, and their lemmas.
- `src/rbsp.rs`: `RbspBitReader`, which reads flags, fixed-width fields and
  Exp-Golomb codes through the `bitreader` crate; its contracts are stated over
  the spec functions of `bits.rs`.
- `src/nal/sps.rs`: the SPS types, the SPS syntax as spec functions
  (`parse_sps` and its parts), the reader of each syntax structure, the laws
  about parsed SPSs, and the handler that gathers the bytes of an SPS NAL unit.
- `src/nal/pps.rs`: parameter set identifiers.
- `src/nal.rs`: NAL unit headers and unit types.
- `src/context.rs`: the table of SPSs seen so far, by identifier.
