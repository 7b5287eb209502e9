# homun

Verified support library of the Homun-to-Rust compiler.

- `homun_std`: runtime helpers called by generated programs (slicing,
  `range`, concatenation, `len` and indexing).
- `chars`, `helpers`, `helpers_imp`: character classes and small helpers of
  the Homun runtime.
- `codegen_helpers`, `codegen_imp`: string helpers, syntax-tree accessors and
  name registries of the code generator.
- `scope`: sets of bound names.
- `parser_imp`: the parser's token cursor and syntax-tree constructors.
- `driver`: stage error messages and assembly of the output file.
- `embedded`: the embedded `std` runtime text, the file preamble, and the
  libraries a program's `use` statements call for.
- `ast`, `text`: the syntax tree and shared string utilities.

Every function states its behaviour in `requires`/`ensures`. All are
checked by Verus except the three small trusted wrappers around standard
library calls (`char::is_alphabetic`, `char::is_alphanumeric`, and
`HashMap::get` with a `&str` key), whose contracts Verus takes as given.
