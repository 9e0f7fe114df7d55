//! Expands a short term into a phrase: each letter of the term becomes a word
//! of a word list that starts with that letter, and the words are joined with
//! a delimiter.
pub mod context;
pub mod generator;
pub mod random;
pub mod text;
