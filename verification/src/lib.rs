//! Numgle: transliterates text, character by character, into a target glyph
//! representation. Each code point is classified into one of six disjoint
//! character classes (complete Hangul syllable, incomplete Hangul jamo,
//! uppercase letter, lowercase letter, digit, special symbol) and mapped
//! through a precomputed lookup table into a textual fragment; fragments are
//! joined with a newline separator to form the output.

pub mod analyzer;
pub mod converts;
pub mod data;
