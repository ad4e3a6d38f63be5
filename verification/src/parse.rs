pub mod body;
pub mod error;
pub mod group;
pub mod lexer;
