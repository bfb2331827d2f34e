//! Small esoteric-language front ends.
//!
//! - Whitespace: `ws_token` filters source text to three symbols, `assembler`
//!   decodes them into `instruction`s, and `vm` runs them one step at a time
//!   (`vm_laws` states what the steps guarantee).
//! - Bolic: `token` lexes, `parser` builds the `ast`, `interpreter` evaluates it;
//!   `arith_token` lexes the older arithmetic-only dialect.
//! - HQ9+ (`hq9plus`) and the Starry compiler (`starry`).

pub mod arith_token;
pub mod assembler;
pub mod ast;
pub mod decimal;
pub mod hq9plus;
pub mod instruction;
pub mod interpreter;
pub mod parser;
pub mod starry;
pub mod token;
pub mod vm;
pub mod vm_laws;
pub mod ws_token;
