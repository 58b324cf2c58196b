//! A small textual arithmetic expression evaluator.
//!
//! The pipeline has three stages: a grammar-driven parser that turns a
//! source string into a sequence of expression trees, an AST of numbers,
//! unary signs and binary operators, and an evaluator that folds each tree
//! to a double-precision value, carried everywhere as its IEEE 754 bit
//! pattern (a `u64`).
//!
//! The verifier does not reason about floating-point arithmetic, so the
//! library never performs any: wherever a double-precision result is
//! needed — the value of a literal, of an operation, the text of a number
//! — the library asks its caller for the answer and is verified to do the
//! right thing with every answer it may receive. The caller drives each
//! entry point in a small loop: call, perform the one IEEE 754 step the
//! library asks for, append the answer to the tape, and call again.
//! Everything else — the grammar, the shape of the trees, associativity,
//! implicit multiplication, constant resolution, error detection, the
//! order of evaluation — is decided inside the library and proved against
//! the specification functions in each module.

pub mod ast;
pub mod compiler;
pub mod parser;
