//! The result-and-error algebra of a combinator parsing engine: the four-outcome
//! parse result, the error accumulation model, the parser contract, the
//! error-customising combinators, and the choice among alternatives that
//! compares failures and asks only the kept ones for their contribution.

pub mod error;
pub mod stream;
pub mod parser;
pub mod laws;
pub mod choice;
