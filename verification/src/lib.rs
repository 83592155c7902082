pub mod environment;
pub mod expr;
pub mod interpreter;
pub mod num;
pub mod parser;
pub mod printer;
pub mod resolver;
pub mod scanner;
pub mod stmt;
pub mod token;
pub mod value;
pub mod vm;
pub mod text;
