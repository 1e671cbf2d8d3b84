//! ASCII string types with pluggable case sensitivity.
//!
//! `AsciiStr` borrows ASCII bytes and `AsciiString` owns them. Both compare, order and hash
//! according to a `Comparator`: `CaseSensitive` compares bytes as they are, while
//! `CaseInsensitive` compares their ASCII lowercase forms.
mod ascii;
mod ascii_str;
mod ascii_string;
mod comparator;
mod error;
mod hash_log;
mod relations;

pub use ascii::{
    all_ascii, ascii_chars, bytes_are_ascii, char_utf8_bytes, debug_escape, debug_escaped,
    debug_text, hex_digit, is_ascii_byte, lemma_lower_folds_only_uppercase_letters, lemma_lower_keeps_ascii,
    lemma_same_lowercase_iff_same_up_to_case, lower, lower_seq,
    render_debug, to_ascii_lowercase,
};
pub use ascii_str::{bytes_of, converted_from, text_of, AsciiStr};
pub use ascii_string::{
    filter_by, lemma_filter_by_all_or_none, lemma_pop_undoes_push, lemma_remove_undoes_insert,
    lemma_splice_in_ends, lemma_splice_in_places, lemma_split_off_then_append_restores, splice_in, AsciiString,
};
pub use comparator::{
    compare_bytes, compare_lowercase, lemma_ascii_never_equals_non_ascii,
    lemma_case_insensitive_equal_iff, lemma_case_sensitive_equal_iff, lemma_case_insensitive_equal_iff_same_up_to_case,
    lemma_case_insensitive_first_difference_decides, lemma_case_insensitive_hash_writes,
    lemma_case_insensitive_length_decides_after_common_prefix,
    lemma_case_sensitive_first_difference_decides, lemma_case_sensitive_hash_writes,
    lemma_case_sensitive_length_decides_after_common_prefix, lemma_lex_common_prefix,
    lemma_lex_first_difference, lemma_lex_equal_iff,
    lemma_lex_proper_prefix, lemma_lex_reverse, lemma_lex_transitive,
    lemma_proper_prefix_sorts_first, lemma_uppercase_before_lowercase, lex_order, ordering_of,
    CaseInsensitive, CaseSensitive, Comparator, Order,
};
pub use hash_log::HashLog;
pub use error::{byte_list, decimal_digits, error_message, FromAsciiError};
pub use relations::{equal_under, lemma_equal_strings_hash_alike, lemma_equality_is_equivalence};
