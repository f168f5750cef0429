//! A small interpreted language: tokenizer, precedence-climbing parser,
//! syntax tree and evaluator.
//!
//! Text becomes tokens ([`lexer`]), tokens become a syntax tree ([`parser`],
//! held to the grammar of [`grammar`]), and a [`machine`] runs the tree
//! step by step against the scopes of [`env`].
//!
//! The library computes with integers, booleans, strings and arrays. It
//! holds floats but does not compute with them, and it writes nothing: a
//! step of the machine that needs a floating-point result, or that prints,
//! says so, and whoever runs the machine does what is asked.
//!
//! What is proved of the library as a whole stands in [`laws`] (the
//! scopes), [`pins`] (functions keep their scopes), [`progress`] (parsing
//! moves forward), [`roundtrip`] (the canonical text of an expression
//! parses back to the expression) and [`meaning`] (the machine computes
//! what an expression means).

pub mod shared;
pub mod text;
pub mod token;
pub mod lexer;
pub mod ast;
pub mod render;
pub mod precedence;
pub mod grammar;
pub mod parser;
pub mod progress;
pub mod roundtrip;
pub mod value;
pub mod env;
pub mod eval;
pub mod pins;
pub mod machine;
pub mod meaning;
pub mod laws;

pub use ast::{
    Array, AssignStatement, Block, Boolean, ConditionStatement, Expression, ExpressionStatement,
    Float, FunctionCall, FunctionDeclaration, FunctionExpression, Identifier, Index, Infixed,
    Integer, LetStatement, Prefixed, Program, ReturnStatement, Statement, StringLiteral,
};
pub use env::ExecutionEnvironment;
pub use eval::{EvalError, FloatOp, FloatRequest, Operand, Outcome};
pub use grammar::ParserError;
pub use lexer::Lexer;
pub use machine::{Action, Machine};
pub use parser::Parser;
pub use precedence::Precedence;
pub use render::Node;
pub use token::{Position, Token, TokenKind};
pub use value::{Builtin, FloatValue, Function, Value};
