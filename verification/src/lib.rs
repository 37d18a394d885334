//! Generation and validation of CPF identifiers (the Brazilian 11-digit
//! national ID whose last two digits are check digits computed by a weighted
//! modulo-11 checksum).
//!
//! The crate is organised as a pure checksum engine ([`checksum`]), the data
//! types of the service ([`structs`]), text helpers for digits and numerals
//! ([`text`]), grapheme segmentation ([`segment`]), the generation and
//! validation operations ([`utils`]), and the response builders that an HTTP
//! layer can expose directly ([`paths`]).

pub mod checksum;
pub mod paths;
pub mod segment;
pub mod structs;
pub mod text;
pub mod utils;
