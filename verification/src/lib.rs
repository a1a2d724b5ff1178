//! Splits a Windows-style command line, given as 16-bit code units, into its
//! arguments, under each of three historical quoting conventions.

pub mod laws;
pub mod machine;
pub mod split;
pub mod tokenizer;
pub mod units;
pub mod wide;
