//! A single-pass scanner for one line of a small scripting language.
//!
//! The scanner turns the characters of a line into classified tokens and
//! records every malformed fragment as an exception instead of stopping.
//! What it yields is fixed by the mathematical description in [`grammar`]:
//! the executable scanner in [`scanner`] is proved to compute exactly that.

pub mod chars;
pub mod exceptions;
pub mod grammar;
pub mod scanner;
pub mod token;
