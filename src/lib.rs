//! Search the functions of a C source file by approximate type signature.
//!
//! A query such as `int -> (int, int)` is tokenized, parsed into a
//! [`FunctionSignature`], rendered into a canonical text form, and every
//! candidate function is scored against it with Jaro-Winkler similarity.
//! Candidates are then ranked by descending score.
pub mod signature;
pub mod token;
pub mod parse;
pub mod score;
pub mod rank;
pub mod normalize;
