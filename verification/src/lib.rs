pub mod ast;
pub mod lexer;
pub mod parser;
pub mod props;
pub mod tokens;
