# datafusion_encoding

The `encode(expression, format)` and `decode(expression, format)` scalar functions: binary or
string data to base64 (standard alphabet, no padding) or lowercase hex text, and back.

- `src/` is the verified library.
  - `hex_codec.rs`, `base64_codec.rs`: what the texts are, the calls into the `hex` and
    `base64` crates with their contracts, and the lemmas on the texts (length, ASCII,
    one text per byte string).
  - `data.rs`: data types, scalars, and string/binary arrays held as offsets into one
    byte buffer, with their well-formedness as a type invariant.
  - `encoding.rs`, `arrays.rs`: each encoding on scalars and on whole arrays; decoding an
    array writes every value into one buffer sized in advance, and the proof shows it always
    has room.
  - `functions.rs`: `encode` and `decode` on their arguments.
  - `udf.rs`: names, signatures, result types and argument coercion of the two functions.
  - `laws.rs`: decoding undoes encoding (bytes, arrays, whole values), encoding undoes
    decoding up to letter case, result types agree with the planning rules, coercion settles.
- `app/` registers the functions with DataFusion: it converts arrow values to the library's
  values and back, and words the errors.
- `tests/` runs the library on concrete values.
