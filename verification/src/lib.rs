//! Mishell: the lexer, the parsers and the text renderings of a small
//! interactive shell, with the shell's bookkeeping types.

pub mod text;
pub mod tokens;
pub mod tokenizer_v2;
pub mod parser_v2;
pub mod ast;
pub mod tokenizer;
pub mod executables_cache;
pub mod exec;
pub mod id;
pub mod engine;
pub mod variable_manager;
pub mod parser;
