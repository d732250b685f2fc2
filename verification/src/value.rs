use vstd::prelude::*;

use crate::regexp::Regexp;

verus! {

/// The Ruby values that the methods of `Regexp` and `MatchData` are handed.
pub enum Value {
    Nil,
    Bool(bool),
    Fixnum(i64),
    Str(String),
    Symbol(String),
    Array(Vec<Value>),
    /// A range of integers, `start..end` or `start...end`.
    Range { start: i64, end: i64, exclude_end: bool },
    Regexp(Box<Regexp>),
}

/// The class of a Ruby value, as conversion errors name it.
#[derive(Debug, Clone, Copy, PartialEq, Eq, Structural)]
pub enum RubyType {
    Nil,
    Bool,
    Fixnum,
    String,
    Symbol,
    Array,
    Range,
    Data,
}

/// The Rust type that a Ruby value failed to convert to.
#[derive(Debug, Clone, Copy, PartialEq, Eq, Structural)]
pub enum RustType {
    Integer,
    String,
    Regexp,
}

/// The class of `v`.
pub open spec fn ruby_type_of(v: &Value) -> RubyType {
    match v {
        Value::Nil => RubyType::Nil,
        Value::Bool(_) => RubyType::Bool,
        Value::Fixnum(_) => RubyType::Fixnum,
        Value::Str(_) => RubyType::String,
        Value::Symbol(_) => RubyType::Symbol,
        Value::Array(_) => RubyType::Array,
        Value::Range { .. } => RubyType::Range,
        Value::Regexp(_) => RubyType::Data,
    }
}

impl Value {
    /// The class of this value.
    pub fn ruby_type(&self) -> (t: RubyType)
        ensures
            t == ruby_type_of(self),
    {
        match self {
            Value::Nil => RubyType::Nil,
            Value::Bool(_) => RubyType::Bool,
            Value::Fixnum(_) => RubyType::Fixnum,
            Value::Str(_) => RubyType::String,
            Value::Symbol(_) => RubyType::Symbol,
            Value::Array(_) => RubyType::Array,
            Value::Range { .. } => RubyType::Range,
            Value::Regexp(_) => RubyType::Data,
        }
    }
}

impl RubyType {
    /// The class name of this type, as Ruby prints it.
    pub fn name(self) -> (s: &'static str)
        ensures
            s@ == ruby_type_name(self),
    {
        match self {
            RubyType::Nil => "NilClass",
            RubyType::Bool => "Boolean",
            RubyType::Fixnum => "Fixnum",
            RubyType::String => "String",
            RubyType::Symbol => "Symbol",
            RubyType::Array => "Array",
            RubyType::Range => "Range",
            RubyType::Data => "Data",
        }
    }
}

/// The class name of `t`.
pub open spec fn ruby_type_name(t: RubyType) -> Seq<char> {
    match t {
        RubyType::Nil => "NilClass"@,
        RubyType::Bool => "Boolean"@,
        RubyType::Fixnum => "Fixnum"@,
        RubyType::String => "String"@,
        RubyType::Symbol => "Symbol"@,
        RubyType::Array => "Array"@,
        RubyType::Range => "Range"@,
        RubyType::Data => "Data"@,
    }
}

impl RustType {
    /// The name of this type in conversion errors.
    pub fn name(self) -> (s: &'static str)
        ensures
            s@ == rust_type_name(self),
    {
        match self {
            RustType::Integer => "Integer",
            RustType::String => "String",
            RustType::Regexp => "Regexp",
        }
    }
}

/// The name of `t`.
pub open spec fn rust_type_name(t: RustType) -> Seq<char> {
    match t {
        RustType::Integer => "Integer"@,
        RustType::String => "String"@,
        RustType::Regexp => "Regexp"@,
    }
}

} // verus!
