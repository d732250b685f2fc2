use mruby_regexp::error::RegexpError;
use mruby_regexp::match_data::{Indexed, MatchData};
use mruby_regexp::regexp::{init, Regexp};
use mruby_regexp::value::{RubyType, Value};

fn s(text: &str) -> Value {
    Value::Str(text.to_owned())
}

fn eval_error(e: RegexpError) -> String {
    format!("(eval):1: {} ({})\n(eval):1", e.message(), e.class_name())
}

fn ruby_type_of_result(r: Result<Regexp, RegexpError>) -> RubyType {
    Value::Regexp(Box::new(r.expect("eval"))).ruby_type()
}

fn text(r: Result<Indexed, RegexpError>) -> Result<String, ()> {
    match r {
        Ok(Indexed::Text(t)) => Ok(t),
        _ => Err(()),
    }
}

fn texts(r: Result<Indexed, RegexpError>) -> Result<Vec<String>, ()> {
    match r {
        Ok(Indexed::List(v)) => v.into_iter().map(|x| x.ok_or(())).collect(),
        _ => Err(()),
    }
}

fn matched(pattern: &str, string: &str) -> MatchData {
    let regexp = Regexp::literal(pattern, "").expect("eval");
    regexp
        .match_(Some(string.to_owned()), None)
        .expect("search")
        .and_then(|o| o.data)
        .expect("match")
}

#[test]
fn regexp_new_from_string() {
    let defs = init();
    let regexp = Regexp::initialize(&s("foo.*bar"), None, None);
    assert_eq!(ruby_type_of_result(regexp), RubyType::Data);
    assert_eq!(defs.regexp_class, "Regexp");
}

#[test]
fn regexp_new_from_pattern() {
    let defs = init();
    let regexp = Regexp::literal("foo.*bar", "");
    assert_eq!(ruby_type_of_result(regexp), RubyType::Data);
    assert_eq!(defs.regexp_class, "Regexp");
    let regexp = Regexp::literal("foo.*bar", "i");
    assert_eq!(ruby_type_of_result(regexp), RubyType::Data);
}

#[test]
fn regexp_new_from_string_with_options() {
    let regexp = Regexp::initialize(&s("foo.*bar"), Some(&Value::Bool(true)), None);
    assert_eq!(ruby_type_of_result(regexp), RubyType::Data);
    let regexp = Regexp::initialize(&s("foo.*bar"), Some(&Value::Bool(false)), None);
    assert_eq!(ruby_type_of_result(regexp), RubyType::Data);
    let regexp = Regexp::initialize(&s("foo.*bar"), Some(&Value::Nil), None);
    assert_eq!(ruby_type_of_result(regexp), RubyType::Data);
    let regexp = Regexp::initialize(&s("foo.*bar"), Some(&Value::Fixnum(1 | 2 | 4)), None);
    assert_eq!(ruby_type_of_result(regexp), RubyType::Data);
    let regexp = Regexp::initialize(&s("foo.*bar"), Some(&s("ixm")), None);
    assert_eq!(ruby_type_of_result(regexp), RubyType::Data);
}

#[test]
fn regexp_new_from_string_with_encoding() {
    let regexp = Regexp::initialize(&s("foo.*bar"), Some(&s("u")), None);
    assert_eq!(ruby_type_of_result(regexp), RubyType::Data);
}

#[test]
fn regexp_new_from_string_with_invalid_encoding() {
    let regexp = Regexp::initialize(&s("foo.*bar"), Some(&s("un")), None).map(|_| ());
    assert_eq!(
        regexp.map_err(eval_error),
        Err("(eval):1: Invalid Regexp encoding (ArgumentError)\n(eval):1".to_owned())
    );
    let regexp = Regexp::initialize(&s("foo.*bar"), Some(&Value::Fixnum(16 | 32)), None).map(|_| ());
    assert_eq!(
        regexp.map_err(eval_error),
        Err("(eval):1: Invalid Regexp encoding (ArgumentError)\n(eval):1".to_owned())
    );
    let regexp =
        Regexp::initialize(&s("foo.*bar"), Some(&Value::Fixnum(0)), Some(&s("x"))).map(|_| ());
    assert_eq!(
        regexp.map_err(eval_error),
        Err("(eval):1: Invalid Regexp encoding (ArgumentError)\n(eval):1".to_owned())
    );
}

#[test]
fn regexp_new_from_string_with_invalid_pattern() {
    let regexp = Regexp::initialize(&Value::Fixnum(2), None, None).map(|_| ());
    assert_eq!(
        regexp.map_err(eval_error),
        Err("(eval):1: conversion error: failed to convert from ruby Fixnum to rust String (RuntimeError)\n(eval):1".to_owned())
    );
    let regexp = Regexp::initialize(&Value::Nil, None, None).map(|_| ());
    assert_eq!(
        regexp.map_err(eval_error),
        Err("(eval):1: conversion error: failed to convert from ruby NilClass to rust String (RuntimeError)\n(eval):1".to_owned())
    );
    let regexp = Regexp::initialize(&Value::Fixnum(2), Some(&Value::Fixnum(1)), None).map(|_| ());
    assert_eq!(
        regexp.map_err(eval_error),
        Err("(eval):1: conversion error: failed to convert from ruby Fixnum to rust String (RuntimeError)\n(eval):1".to_owned())
    );
}

#[test]
fn regexp_new_from_string_with_invalid_options() {
    let regexp = Regexp::initialize(&s("foo.*bar"), Some(&Value::Fixnum(1024)), None).map(|_| ());
    assert_eq!(
        regexp.map_err(eval_error),
        Err("(eval):1: Invalid Regexp flags (ArgumentError)\n(eval):1".to_owned())
    );
    let regexp = Regexp::literal("foo.*bar", "o").map(|_| ());
    assert_eq!(
        regexp.map_err(|e| format!("{}: {}", e.class_name(), e.message())),
        Err("SyntaxError: syntax error".to_owned())
    );
}

#[test]
fn regexp_is_match() {
    let regexp = Regexp::literal("R...", "").expect("eval");
    let result = regexp.is_match(Some("Ruby"), None);
    assert_eq!(result, Ok(Some(true)));
    let result = regexp.is_match(Some("Ruby"), Some(1));
    assert_eq!(result, Ok(Some(false)));
    // Pos beyond end of string
    let result = regexp.is_match(Some("Ruby"), Some(5));
    assert_eq!(result, Ok(Some(false)));
    // Pos = len of string
    let result = regexp.is_match(Some("Ruby"), Some(4));
    assert_eq!(result, Ok(Some(false)));
    let regexp = Regexp::literal("P...", "").expect("eval");
    let result = regexp.is_match(Some("Ruby"), None);
    assert_eq!(result, Ok(Some(false)));
}

#[test]
fn regexp_matchdata_match() {
    let match_data = matched(r"(.)(.)(\d+)(\d)", "THX1138.");
    let result = text(match_data.idx(&vec![Value::Fixnum(0)]));
    assert_eq!(result, Ok("HX1138".to_owned()));
    let result = texts(match_data.idx(&vec![Value::Fixnum(1), Value::Fixnum(2)]));
    assert_eq!(result, Ok(vec!["H".to_owned(), "X".to_owned()]));
    let range = Value::Range { start: 1, end: 3, exclude_end: false };
    let result = texts(match_data.idx(&vec![range]));
    assert_eq!(
        result,
        Ok(vec!["H".to_owned(), "X".to_owned(), "113".to_owned()])
    );
    let result = texts(match_data.idx(&vec![Value::Fixnum(-3), Value::Fixnum(2)]));
    assert_eq!(result, Ok(vec!["X".to_owned(), "113".to_owned()]));

    let match_data = matched(r"(?<foo>a+)b", "ccaaab");
    let result = text(match_data.idx(&vec![s("foo")]));
    assert_eq!(result, Ok("aaa".to_owned()));
    let result = text(match_data.idx(&vec![Value::Symbol("foo".to_owned())]));
    assert_eq!(result, Ok("aaa".to_owned()));
}

#[test]
fn regexp_matchdata_begin() {
    let m = matched(r"(.)(.)(\d+)(\d)", "THX1138.");
    let result = m.begin(&vec![Value::Fixnum(0)]);
    assert_eq!(result, Ok(Some(1)));
    let result = m.begin(&vec![Value::Fixnum(2)]);
    assert_eq!(result, Ok(Some(2)));
    let m = matched(r"(?<foo>.)(.)(?<bar>.)", "hoge");
    let result = m.begin(&vec![s("foo")]);
    assert_eq!(result, Ok(Some(0)));
    let result = m.begin(&vec![Value::Symbol("bar".to_owned())]);
    assert_eq!(result, Ok(Some(2)));
}

#[test]
fn regexp_matchdata_end() {
    let m = matched(r"(.)(.)(\d+)(\d)", "THX1138.");
    let result = m.end(&vec![Value::Fixnum(0)]);
    assert_eq!(result, Ok(Some(7)));
    let result = m.end(&vec![Value::Fixnum(2)]);
    assert_eq!(result, Ok(Some(3)));
    let m = matched(r"(?<foo>.)(.)(?<bar>.)", "hoge");
    let result = m.end(&vec![s("foo")]);
    assert_eq!(result, Ok(Some(1)));
    let result = m.end(&vec![Value::Symbol("bar".to_owned())]);
    assert_eq!(result, Ok(Some(3)));
}
