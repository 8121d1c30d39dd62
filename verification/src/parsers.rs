//! The lexical layer: character classes, quoted strings and the tokenizer.
pub mod chars;
pub mod escaped_string;
pub mod round_trip;
pub mod tokenize;
