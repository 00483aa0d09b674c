# derive_where

Derive standard traits (`Clone`, `Copy`, `Debug`, `Default`, `Eq`, `Hash`,
`Ord`, `PartialEq`, `PartialOrd`, and `Zeroize`/`ZeroizeOnDrop`) with custom
generic bounds, skipped fields, default enum variants and incomparable
variants.

The library in `src/` is written in Verus. It takes the annotated item as
plain values (`model`): the attribute arguments as token trees, the shape of
the item, the text of its types and generics. It reads the `derive_where`
options, rejects what the standard `derive` already covers, and writes the
text of each `impl`. Every function states what it returns, over spec
functions of the same names, and the proof functions state the rules that
hold of every accepted item: unions only get `Clone` and `Copy`, an enum
deriving `Default` has exactly one default variant, skip options only name
groups of traits (`Debug`, `EqHashOrd`, `Hash`, `Zeroize`) that hold a derived
trait, incomparable values compare unequal to everything, and where
`skip_inner` stands among the attributes does not matter.

`app/` is the entry point a procedural macro calls: it reads tokens with
`syn`, hands the library plain values, and turns the generated text or the
error back into tokens.

Layout of `src/`:

- `model`: the input as plain values; `tokens`: printing tokens back.
- `meta`: the option syntax inside `#[derive_where( .. )]`.
- `attr`: options of the item, of variants and of fields.
- `data`, `item`, `input`: the analysed item and the checks on it.
- `trait_`: each trait's generated methods; `gen`, `impl_`: shared pieces
  and whole `impl` blocks.
- `syntax`: the calls into `syn` that read a crate path, a `where`
  predicate or a type, and the record of what they answered. What `syn`
  answers depends on the token implementation in use, so each text is read
  once, and the contracts hold for every set of answers that agrees with the
  record. What holds of every answer is stated: a plain identifier is a type
  and a one-segment path, and `T : Copy` is a predicate bounding a type, so
  the common bounds and crate paths are read the same way everywhere.
