use vstd::prelude::*;

use crate::value::{RubyType, RustType, ruby_type_name, rust_type_name};

verus! {

/// The exceptions that `Regexp` and `MatchData` raise.
#[derive(Debug, Clone, Copy, PartialEq, Eq, Structural)]
pub enum RegexpError {
    /// Integer options with a bit that is no regexp option (`ArgumentError`).
    InvalidFlags,
    /// Encoding flags that name no encoding, or more than one (`ArgumentError`).
    InvalidEncoding,
    /// An argument of the wrong class (`RuntimeError`).
    Conversion { from: RubyType, to: RustType },
    /// A pattern that the engine does not compile (`SyntaxError`).
    Malformed,
    /// `begin` or `end` with a start and a length (`ArgumentError`).
    MustPassIndexOrSymbol,
    /// A call with the wrong number of arguments (`ArgumentError`).
    WrongArgumentCount,
    /// A regexp literal with a flag letter that Ruby does not know (`SyntaxError`).
    LiteralSyntax,
    /// A search that the engine gave up (such as at its limit of retries)
    /// (`RegexpError`).
    SearchFailed,
}

/// The class of the exception that `e` raises.
pub open spec fn class_name_of(e: RegexpError) -> Seq<char> {
    match e {
        RegexpError::InvalidFlags => "ArgumentError"@,
        RegexpError::InvalidEncoding => "ArgumentError"@,
        RegexpError::Conversion { .. } => "RuntimeError"@,
        RegexpError::Malformed => "SyntaxError"@,
        RegexpError::MustPassIndexOrSymbol => "ArgumentError"@,
        RegexpError::WrongArgumentCount => "ArgumentError"@,
        RegexpError::LiteralSyntax => "SyntaxError"@,
        RegexpError::SearchFailed => "RegexpError"@,
    }
}

/// The message of the exception that `e` raises.
pub open spec fn message_of(e: RegexpError) -> Seq<char> {
    match e {
        RegexpError::InvalidFlags => "Invalid Regexp flags"@,
        RegexpError::InvalidEncoding => "Invalid Regexp encoding"@,
        RegexpError::Conversion { from, to } => "conversion error: failed to convert from ruby "@
            + ruby_type_name(from) + " to rust "@ + rust_type_name(to),
        RegexpError::Malformed => "malformed Regexp"@,
        RegexpError::MustPassIndexOrSymbol => "must pass index or symbol"@,
        RegexpError::WrongArgumentCount => "wrong number of arguments"@,
        RegexpError::LiteralSyntax => "syntax error"@,
        RegexpError::SearchFailed => "regexp search failed"@,
    }
}

impl RegexpError {
    /// The class of the exception.
    pub fn class_name(self) -> (s: &'static str)
        ensures
            s@ == class_name_of(self),
    {
        match self {
            RegexpError::InvalidFlags => "ArgumentError",
            RegexpError::InvalidEncoding => "ArgumentError",
            RegexpError::Conversion { .. } => "RuntimeError",
            RegexpError::Malformed => "SyntaxError",
            RegexpError::MustPassIndexOrSymbol => "ArgumentError",
            RegexpError::WrongArgumentCount => "ArgumentError",
            RegexpError::LiteralSyntax => "SyntaxError",
            RegexpError::SearchFailed => "RegexpError",
        }
    }

    /// The message of the exception.
    pub fn message(self) -> (s: String)
        ensures
            s@ == message_of(self),
    {
        match self {
            RegexpError::InvalidFlags => String::from_str("Invalid Regexp flags"),
            RegexpError::InvalidEncoding => String::from_str("Invalid Regexp encoding"),
            RegexpError::Conversion { from, to } => {
                let mut s = String::from_str("conversion error: failed to convert from ruby ");
                s.append(from.name());
                s.append(" to rust ");
                s.append(to.name());
                s
            },
            RegexpError::Malformed => String::from_str("malformed Regexp"),
            RegexpError::MustPassIndexOrSymbol => String::from_str("must pass index or symbol"),
            RegexpError::WrongArgumentCount => String::from_str("wrong number of arguments"),
            RegexpError::LiteralSyntax => String::from_str("syntax error"),
            RegexpError::SearchFailed => String::from_str("regexp search failed"),
        }
    }
}

} // verus!
