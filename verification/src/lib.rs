//! Conversion of a small dialect of lightweight markup into LaTeX.
//!
//! The work is done in two stages. The tokenizer scans the input text and
//! produces a flat sequence of tokens; the converter folds that sequence into
//! LaTeX while keeping track of the list environment that is currently open.
//! Both stages are total: every input text and every token sequence has a
//! result.

pub mod chars;
pub mod latex_converter;
pub mod laws;
pub mod text;
pub mod tokenizer;
