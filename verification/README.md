# bindgen

A generator of Rust foreign-function bindings from a model of parsed C and C++
declarations, written in Verus with every function proved against its contract.

* `src/types.rs` — the declaration model: C types, compound, enum, typedef and
  variable tables, and the list of top-level declarations that index into them.
* `src/gen.rs` — the translation: escaping of identifiers, naming of anonymous
  declarations, C types to Rust types, structs, unions, enums, typedefs, foreign
  statics and functions, C++ class methods, the removal of repeated and redundant
  declarations, and the whole translation unit (`gen_rs`).
* `src/laws.rs` — properties that hold of every run.
* `src/validate.rs` — run-time checks of the input conditions, and `gen_rs_checked`.
* `src/text.rs` — numerals and reserved words.
* `src/bindgen_cpp.rs` — the integer-only types of the bindings of the sample header.
* `app/main.rs` — the sample program that calls the sample C++ library, and the writer
  of generated bindings.
