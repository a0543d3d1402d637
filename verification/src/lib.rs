//! A concurrent HTTP content-discovery fuzzer core: wordlist expansion,
//! keyword substitution, response filtering and the bounded-concurrency
//! run bookkeeping, with machine-checked contracts.

pub mod error;
pub mod exclude_length;
pub mod filters;
pub mod fuzz;
pub mod text;
pub mod probe;
pub mod words;
