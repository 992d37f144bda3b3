//! Front end for a prose-shaped esoteric language: source text is tokenized,
//! normalized, parsed into statements, resolved (variables, pronouns, poetic
//! number literals) and lowered into a flat, label-addressed instruction list.

pub mod chars;
pub mod types;
pub mod lexer;
pub mod preprocessor;
pub mod keyword_defs;
pub mod ast;
pub mod grammar;
pub mod parser;
pub mod errors;
pub mod number;
pub mod ir;
pub mod variable_extractor;
pub mod pronoun_replacer;
pub mod ast_to_ir;
pub mod compiler;
pub mod interpreter;
pub mod ir_to_c;
