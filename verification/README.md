# edtf

A Verus-verified implementation of the Extended Date/Time Format (EDTF, 2019-02), levels 0
and 1, and the scientific years of level 2.

## Layout

- `src/` — the verified library.
  - `calendar`: leap years, month lengths, valid proleptic Gregorian dates.
  - `text`, `scan`: ASCII input, decimal digits read from bytes and written as bytes.
  - `common`: timestamps (`T12:34:56`, `Z`, `+04`, `-04:30`), shared by levels 0 and 1.
  - `level_0`, `level_1`, `level_2`: the grammars as spec functions over bytes, parsers
    proved equal to them, validation, formatting, and the lossless round trips.
  - `level_1::packed`: the compact representation of dates with their qualifiers.
  - `level_1::iter`: iterating the centuries, decades, years, months and days an EDTF covers.
  - `level_1::sorting`, `level_1::sort_key`: ordering values on the time line.
- `tests/` — tests of the library on concrete values.
- `app/` — conversions to and from `chrono` types, and `serde` support, on thin copies of the
  library's types.
