//! Configuration-driven file staging: copy items whose destination paths and
//! text contents are rewritten by an ordered list of scoped find/replace
//! rules. The rule fold, the literal replacement, the scope test and the
//! destination-path arithmetic are verified; the regular-expression engine and
//! the UTF-8 test are called through trusted wrappers.

pub mod engine;
pub mod laws;
pub mod pattern;
pub mod rules;
pub mod text;
