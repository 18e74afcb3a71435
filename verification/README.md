# dactyl

Fast stringification of integers, formatted with a separator at each
thousand (`1010` becomes `"1,010"`), together with byte-slice integer
parsing, a pass-through hasher for integer keys, and a few related
formatters. The library is written in Verus: the functions in `src/` carry
contracts that the verifier proves, except four small trusted wrappers
around std calls (`std::str::from_utf8`, `Duration::as_secs`,
`Duration::subsec_millis` and `Hasher::write`), whose contracts are
taken on trust.

## Layout

- `src/decimal.rs`: the mathematical model of decimal text (digits,
  grouping, values) and its lemmas.
- `src/nice/`: the formatters. `NiceWrapper` backs `NiceU8`, `NiceU16`,
  `NiceU32` and `NiceU64`; `NiceClock` (`HH:MM:SS`), `NiceElapsed`
  (`"1 hour and 2 seconds"`), `NiceFloat` (read from a float's bits),
  `NicePercent` (from basis points) and `Digiter` stand beside it.
- `src/traits/`: decimal and hexadecimal parsing (`BytesToUnsigned`,
  `BytesToSigned`, `HexToUnsigned`, `HexToSigned`), `SaturatingFrom`,
  `Inflection`/`NiceInflection` and `GtZero`.
- `src/gt_zero.rs`, `src/hash.rs`, `src/gcd.rs`: `GreaterThanZero`,
  `NoHasher`/`NoHash`, and greatest common divisors.
- `src/laws.rs`: properties that tie the functions together, such as the
  formatted text of a number parsing back to it.
- `app/`: the edges that stay unverified: floats (converted to bits or
  basis points before the library formats them), float division, and
  reading the system clock.
