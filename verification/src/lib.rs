//! Ruby `Regexp` and `MatchData` semantics for an mruby interpreter, on top
//! of the Oniguruma regex engine.

pub mod encoding;
pub mod engine;
pub mod error;
pub mod laws;
pub mod match_data;
pub mod options;
pub mod regexp;
pub mod syntax;
pub mod text;
pub mod value;
