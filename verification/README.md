# bzipper

Binary (de)serialisation with fixed-size buffers, verified with Verus.

Two formats are provided:

- `Encode`/`Decode` over `OStream`/`IStream`: big-endian numbers, `usize`/`isize` as
  16-bit values, strings and vectors preceded by their length, `Option` and `Result` by a sign
  octet. `SizedEncode` gives each sized type its largest encoding; `Buf` holds one encoding.
- `Serialise`/`Deserialise` over `Sstream`/`Dstream`: the same layout with 32-bit sizes, and
  streams that report running out of room as errors. `Buffer` holds one serialisation.

Each format states what it writes and reads as spec functions; the laws that reading gives back
what was written (`Roundtrip`, `SerialiseRoundtrip`) and that no encoding exceeds the advertised
maximum (`SizedEncodeBound`, `SerialiseBound`) are proved for every type that implements them;
every type of the library with a `SizedEncode` or `Serialise` maximum implements the bound.

Layout:

- `src/`: the verified library (`bytes`, `model`, the streams, the two formats, `tuple`,
  the sized collections `SizedSlice`, `SizedStr`, `SizedIter`, `FixedString`, the buffers,
  `discriminant`, and the benchmark `values`).
- `tests/`: the tests.
- `app/`: the benchmark program, which compares the library with other serialisation crates,
  and the displayable copies of the error types.
