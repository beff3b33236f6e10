//! A calculator library: arithmetic expressions supplied as text are
//! tokenized, parsed into an expression tree by recursive descent, and
//! evaluated.
//!
//! Numeric literals travel through the pipeline as their exact source
//! text; every arithmetic step of an evaluation is handed to the caller
//! as an explicit request (see [`evaluator`]), so the caller decides how
//! machine numbers are represented and computed.

pub mod error;
pub mod evaluator;
pub mod lexer;
pub mod parser;

pub use error::ParseError;
pub use evaluator::EvalStep;
pub use evaluator::EvaluationError;
pub use evaluator::evaluate;
pub use lexer::LexError;
pub use lexer::Token;
pub use lexer::tokenize;
pub use parser::Expression;
pub use parser::parse;
