//! The command-language core of a small interactive shell: words, the command
//! tree, instruction classification, aliases, and the evaluator that decides
//! what the shell does next; and around it the prompt: its variables, its
//! template language, and the settings read from the configuration.
pub mod text;
pub mod lexer;
pub mod command;
pub mod tree;
pub mod alias;
pub mod eval;
pub mod laws;
pub mod prompt;
pub mod config;
pub mod builtin;
pub mod theme;
pub mod format;
pub mod hint;
