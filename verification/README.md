# fovea_derive

The logic of the fovea pixel derives (`PlainPixel`, `HomogeneousPixel`,
`ZeroablePixel`, `LinearPixel`, `WhiteChannel`), verified with Verus.

Each derive is a function from a plain model of the annotated item to the
printed tokens of the generated impls, or to an error message and the place
in the item it points at. Its contract states the result exactly, over spec
functions that describe the generated code.

Layout:

- `src/model.rs`: the derive input as plain values, and the printing of
  token sequences.
- `src/text.rs`: text building blocks (word joining, delimiters, decimals).
- `src/shape.rs`: the struct and `#[repr(..)]` checks shared by the derives.
- `src/plain_pixel.rs`, `src/homogeneous_pixel.rs`, `src/zeroable_pixel.rs`,
  `src/linear_pixel.rs`, `src/white_channel.rs`: one derive each.
- `src/laws.rs`: properties that relate the derives to each other.
- `src/outside.rs`: the calls into `syn` and `std` taken on trust.
- `app/lib.rs`: the compiler-facing side: parsing with `syn`, converting to
  the model, and turning the result back into tokens or a compile error.
- `tests/`: tests of the library on items parsed with `syn`.
