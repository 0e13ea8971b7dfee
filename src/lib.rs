//! A lexer for a small pipeline-configuration language.
//!
//! Source text is split into a flat sequence of typed tokens. Positions and
//! lengths count Unicode scalar values (`char`s), one per column.
pub mod char_utils;
pub mod token;
pub mod fsm;
pub mod number_fsm;
pub mod lexer;
