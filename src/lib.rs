pub mod lexer;
pub mod token;
pub mod lemmas;
