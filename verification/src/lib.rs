pub mod text;
pub mod table;
pub mod script;
pub mod parser;
pub mod variables;
pub mod arith;
pub mod engine;
pub mod save;
pub mod dialogue;
pub mod args;
pub mod scene;
pub mod shell;
pub mod image;
pub mod laws;
pub mod screen;
