pub mod ast;
pub mod context;
pub mod diagnostics;
pub mod laws;
pub mod lexer;
pub mod parser;
pub mod shell;
pub mod tokens;
