//! Lexical front-end core: source positions and ranges, a reader that resolves
//! them against a loaded text buffer, and a character-feeding tokenizer protocol.
pub mod pos;
pub mod reader;
pub mod token;
pub mod scan;
