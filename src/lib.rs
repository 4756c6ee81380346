//! Front end and code generator of a small language of mathematical expressions: a source
//! text such as `f(x) = sin(x) * 2; plot(f);` becomes a list of stack-machine instructions.
//!
//! - [`cursor`]: a scanning position over the text, with line and column.
//! - [`primitives`], [`combinators`], [`helpers`]: a parser toolkit over cursors.
//! - [`literal`], [`grammar`]: the language's grammar, producing the tree of [`ast`].
//! - [`ops`], [`codegen`]: the instruction set and the code generator.
//! - [`compiler`]: text to instructions, held to the evaluator's capacity.
//! - [`laws`]: properties that relate the functions above.

pub mod ast;
pub mod codegen;
pub mod combinators;
pub mod compiler;
pub mod cursor;
pub mod error;
pub mod grammar;
pub mod helpers;
pub mod laws;
pub mod literal;
pub mod ops;
pub mod primitives;
pub mod text;
