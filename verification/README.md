# ascii_string

ASCII string types with pluggable case sensitivity, verified with Verus.

- `src/ascii.rs`: ASCII validity, lowercasing, UTF-8 bytes of a character, the debug form.
- `src/comparator.rs`: the `Comparator` trait, `CaseSensitive` and `CaseInsensitive`, and
  the proofs that both are total orders whose equality agrees with hashing.
- `src/ascii_str.rs`, `src/ascii_string.rs`: the borrowed and owned string types; every
  operation keeps the bytes ASCII.
- `src/relations.rs`: equality, ordering and hashing, all following the comparator.
- `src/error.rs`: the error for refused bytes and its message.
- `app/lib.rs`: serde support and the formatting traits, on wrapper types.
