//! Line-oriented token consumption for whitespace-delimited input.
//!
//! Raw text is cut into lines on `'\n'`, each line into tokens on a single
//! space. A [`Lines`] buffer hands the tokens out again through three
//! extraction disciplines: one typed scalar at a time (spilling over to the
//! next line when the current one is exhausted), one line as a typed
//! sequence (skipping blank lines), or all remaining lines as a
//! two-dimensional typed sequence (dropping blank lines). Tokens that fail
//! to parse in bulk extraction are silently discarded; a scalar that cannot
//! be produced is reported as absence, never as a panic.

pub mod args;
pub mod attr;
pub mod laws;
pub mod line;
pub mod lines;
pub mod text;
pub mod token;

pub use args::FromStrArgument;
pub use args::TwoDVecArgument;
pub use args::VecArgument;
pub use attr::PteAttrParser;
pub use line::Line;
pub use lines::Lines;
