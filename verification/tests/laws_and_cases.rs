use mruby_regexp::encoding::Encoding;
use mruby_regexp::error::RegexpError;
use mruby_regexp::match_data::{Indexed, MatchData, MatchIndex};
use mruby_regexp::options::Options;
use mruby_regexp::regexp::{init, Handler, Regexp};
use mruby_regexp::syntax::escape;
use mruby_regexp::value::{RubyType, RustType, Value};

fn s(text: &str) -> Value {
    Value::Str(text.to_owned())
}

fn opts(ignore_case: bool, extended: bool, multiline: bool) -> Options {
    Options { ignore_case, extended, multiline }
}

fn all_options() -> Vec<Options> {
    let mut v = Vec::new();
    for bits in 0..8u32 {
        v.push(opts(bits & 1 != 0, bits & 2 != 0, bits & 4 != 0));
    }
    v
}

fn matched(pattern: &str, string: &str) -> MatchData {
    Regexp::literal(pattern, "")
        .expect("compiles")
        .match_(Some(string.to_owned()), None)
        .expect("search")
        .and_then(|o| o.data)
        .expect("matches")
}

fn text(r: Result<Indexed, RegexpError>) -> Option<String> {
    match r {
        Ok(Indexed::Text(t)) => Some(t),
        _ => None,
    }
}

#[test]
fn option_bits_roundtrip() {
    for o in all_options() {
        assert_eq!(Options::from_value(&Value::Fixnum(o.flags() as i64)), Ok(o));
    }
}

#[test]
fn option_letters_roundtrip() {
    for o in all_options() {
        assert_eq!(Options::from_value(&Value::Str(o.as_literal_string())), Ok(o));
    }
}

#[test]
fn encoding_bits_roundtrip() {
    for e in [Encoding::Fixed, Encoding::NoEncoding] {
        assert_eq!(Encoding::from_value(&Value::Fixnum(e.flags()), false), Ok(e));
        assert_eq!(Encoding::from_value(&Value::Fixnum(e.flags()), true), Ok(e));
    }
}

#[test]
fn options_and_encoding_in_one_integer() {
    let r = Regexp::initialize(&s("abc"), Some(&Value::Fixnum(1 | 4 | 16)), None).expect("compiles");
    let (pattern, options, encoding) = r.new_obj_args();
    assert_eq!(pattern, "(?mi-x:abc)");
    assert_eq!(options, 5);
    assert_eq!(encoding, 16);
    assert_eq!(r.options(), 5);
}

#[test]
fn engine_pattern_is_kept() {
    let r = Regexp::initialize(&s("a+b"), Some(&Value::Bool(true)), None).expect("compiles");
    assert_eq!(r.to_s(), "(?i-mx:a+b)");
    let again = Regexp::initialize(&s(&r.to_s()), None, None).expect("compiles");
    assert_eq!(again.to_s(), r.to_s());
    let from_regexp = Regexp::initialize(&Value::Regexp(Box::new(r.clone())), None, None).expect("compiles");
    assert_eq!(from_regexp.to_s(), r.to_s());
}

#[test]
fn options_from_values() {
    assert_eq!(Options::from_value(&Value::Nil), Ok(Options::default()));
    assert_eq!(Options::from_value(&Value::Bool(false)), Ok(Options::default()));
    assert_eq!(Options::from_value(&Value::Bool(true)), Ok(Options::ignore_case()));
    assert_eq!(Options::from_value(&Value::Symbol("x".to_owned())), Ok(Options::ignore_case()));
    assert_eq!(Options::from_value(&s("mx")), Ok(opts(false, true, true)));
    assert_eq!(Options::from_value(&Value::Fixnum(7 | 16 | 32)), Ok(opts(true, true, true)));
    assert_eq!(Options::from_value(&Value::Fixnum(8)), Err(RegexpError::InvalidFlags));
}

#[test]
fn encodings_from_values() {
    assert_eq!(Encoding::from_value(&s("u"), false), Ok(Encoding::Fixed));
    assert_eq!(Encoding::from_value(&s("n"), false), Ok(Encoding::NoEncoding));
    assert_eq!(Encoding::from_value(&s(""), false), Ok(Encoding::NoEncoding));
    assert_eq!(Encoding::from_value(&s("iu"), true), Ok(Encoding::Fixed));
    assert_eq!(Encoding::from_value(&s("iu"), false), Err(RegexpError::InvalidEncoding));
    assert_eq!(Encoding::from_value(&s("uu"), false), Err(RegexpError::InvalidEncoding));
    assert_eq!(Encoding::from_value(&s("un"), true), Err(RegexpError::InvalidEncoding));
    assert_eq!(Encoding::from_value(&Value::Fixnum(0), false), Ok(Encoding::NoEncoding));
    assert_eq!(Encoding::from_value(&Value::Fixnum(7), false), Ok(Encoding::NoEncoding));
    assert_eq!(Encoding::from_value(&Value::Fixnum(64), false), Err(RegexpError::InvalidEncoding));
    assert_eq!(Encoding::from_value(&Value::Nil, false), Ok(Encoding::NoEncoding));
}

#[test]
fn option_strings() {
    let o = opts(true, true, false);
    assert_eq!(o.as_literal_string(), "ix");
    assert_eq!(o.as_onig_string(), "ix-m");
    assert_eq!(Options::default().as_onig_string(), "-mix");
    assert_eq!(opts(true, true, true).as_onig_string(), "mix-");
    assert_eq!(opts(true, true, true).flags(), 7);
}

#[test]
fn from_pattern_cases() {
    let ic = Options::ignore_case();
    assert_eq!(Options::from_pattern("abc", ic), ("(?i-mx:abc)".to_owned(), ic));
    assert_eq!(Options::from_pattern("", Options::default()), ("(?-mix)".to_owned(), Options::default()));
    assert_eq!(Options::from_pattern("(", ic), ("(?i-mx:()".to_owned(), ic));
    assert_eq!(Options::from_pattern("(a)", ic), ("(?i-mx:(a))".to_owned(), ic));
    assert_eq!(Options::from_pattern("(?m)abc", ic), ("(?m)abc".to_owned(), opts(true, false, true)));
    assert_eq!(Options::from_pattern("(?-i)x", ic), ("(?-i)x".to_owned(), Options::default()));
    assert_eq!(Options::from_pattern("(?-i)x", Options::default()), ("(?-i)x".to_owned(), ic));
    assert_eq!(Options::from_pattern("(?x:i)", Options::default()), ("(?x:i)".to_owned(), opts(false, true, false)));
}

#[test]
fn escape_reads_back() {
    assert_eq!(escape("a.b*c"), r"a\.b\*c");
    assert_eq!(escape("x y\n\t"), r"x\ y\n\t");
    assert_eq!(escape("[](){}|-?+^$#\\"), r"\[\]\(\)\{\}\|\-\?\+\^\$\#\\");
    assert_eq!(escape("plain"), "plain");
    let r = Regexp::escape("a.b*c").expect("compiles");
    assert_eq!(r.to_s(), r"(?-mix:a\.b\*c)");
    assert_eq!(r.is_match(Some("xx a.b*c yy"), None), Ok(Some(true)));
    assert_eq!(r.is_match(Some("axbbc"), None), Ok(Some(false)));
}

#[test]
fn union_of_patterns() {
    let none = Regexp::union(&vec![]).expect("compiles");
    assert_eq!(none.to_s(), "(?!)");
    assert_eq!(none.is_match(Some("anything"), None), Ok(Some(false)));
    let r = Regexp::union(&vec![s("a.b"), s("c")]).expect("compiles");
    assert_eq!(r.to_s(), r"(?-mix:a\.b|c)");
    assert_eq!(r.is_match(Some("xc"), None), Ok(Some(true)));
    assert_eq!(r.is_match(Some("axb"), None), Ok(Some(false)));
    let r = Regexp::union(&vec![Value::Array(vec![s("a"), s("b")])]).expect("compiles");
    assert_eq!(r.to_s(), "(?-mix:a|b)");
    let err = Regexp::union(&vec![s("a"), Value::Fixnum(1)]).map(|_| ());
    assert_eq!(err, Err(RegexpError::Conversion { from: RubyType::Fixnum, to: RustType::Regexp }));
}

#[test]
fn literal_and_inspect() {
    let r = Regexp::literal("foo", "ix").expect("compiles");
    assert_eq!(r.inspect(), "/foo/ix");
    assert_eq!(r.options(), 3);
    assert_eq!(r.to_s(), "(?ix-m:foo)");
    let r = Regexp::literal("foo", "mu").expect("compiles");
    assert_eq!(r.inspect(), "/foo/m");
    assert_eq!(r.new_obj_args().2, 16);
    assert_eq!(Regexp::literal("foo", "un").map(|_| ()), Err(RegexpError::InvalidEncoding));
    assert_eq!(Regexp::literal("foo", "z").map(|_| ()), Err(RegexpError::LiteralSyntax));
}

#[test]
fn malformed_pattern() {
    let r = Regexp::initialize(&s("a("), None, None).map(|_| ());
    assert_eq!(r, Err(RegexpError::Malformed));
    assert_eq!(RegexpError::Malformed.message(), "malformed Regexp");
    assert_eq!(RegexpError::Malformed.class_name(), "SyntaxError");
}

#[test]
fn match_predicates_agree() {
    let r = Regexp::literal(r"\d+", "").expect("compiles");
    assert_eq!(r.is_match(Some("ab12"), None), Ok(Some(true)));
    assert_eq!(r.equal_squiggle(Some("ab12"), None), Ok(Some(2)));
    assert!(r.equal_equal_equal(Some("ab12".to_owned())).expect("search").0);
    assert_eq!(r.is_match(Some("ab12"), Some(3)), Ok(Some(true)));
    assert_eq!(r.equal_squiggle(Some("ab12"), Some(3)), Ok(Some(3)));
    assert_eq!(r.is_match(Some("abc"), None), Ok(Some(false)));
    assert_eq!(r.equal_squiggle(Some("abc"), None), Ok(None));
    assert!(!r.equal_equal_equal(Some("abc".to_owned())).expect("search").0);
    assert_eq!(r.is_match(None, None), Ok(None));
    assert_eq!(r.equal_squiggle(None, None), Ok(None));
    assert!(!r.equal_equal_equal(None).expect("search").0);
}

#[test]
fn regexp_equality() {
    let r = Regexp::literal("ab", "").expect("compiles");
    assert!(r.equal_equal(&Value::Regexp(Box::new(r.clone()))));
    let other = Regexp::literal("ab", "i").expect("compiles");
    assert!(!r.equal_equal(&Value::Regexp(Box::new(other))));
    assert!(!r.equal_equal(&s("ab")));
}

#[test]
fn names_of_groups() {
    let r = Regexp::literal("(?<foo>.)(?<bar>.)", "").expect("compiles");
    assert_eq!(r.names(), Some(vec!["foo".to_owned(), "bar".to_owned()]));
    assert_eq!(
        r.named_captures(),
        Some(vec![("foo".to_owned(), vec![1]), ("bar".to_owned(), vec![2])])
    );
    let m = r.match_(Some("hoge".to_owned()), None).expect("search").and_then(|o| o.data).expect("matches");
    assert_eq!(
        m.named_captures(),
        Some(vec![("foo".to_owned(), "h".to_owned()), ("bar".to_owned(), "o".to_owned())])
    );
}

#[test]
fn match_outcome_globals() {
    let r = Regexp::literal(r"(.)(.)(\d+)(\d)", "").expect("compiles");
    let outcome = r.match_(Some("THX1138.".to_owned()), None).expect("search").expect("string");
    assert_eq!(outcome.last_match, Some("HX1138".to_owned()));
    let groups = outcome.groups.expect("groups");
    assert_eq!(groups.len(), 99);
    assert_eq!(groups[0], Some("H".to_owned()));
    assert_eq!(groups[3], Some("8".to_owned()));
    assert_eq!(groups[4], None);
    let data = outcome.data.expect("match");
    assert_eq!(data.string(), "THX1138.");
    assert_eq!(data.regexp().to_s(), r.to_s());
    let none = r.match_(Some("nope".to_owned()), None).expect("search").expect("string");
    assert!(none.data.is_none());
    assert_eq!(none.last_match, None);
    assert!(none.groups.is_none());
    assert!(matches!(r.match_(None, None), Ok(None)));
}

#[test]
fn match_parts_make_up_the_string() {
    let m = matched(r"(.)(.)(\d+)(\d)", "THX1138.");
    let pre = m.pre_match().expect("pre");
    let mid = m.to_s().expect("match");
    let post = m.post_match().expect("post");
    assert_eq!(pre, "T");
    assert_eq!(post, ".");
    assert_eq!(format!("{}{}{}", pre, mid, post), "THX1138.");
    let m = matched("b", "äbç");
    assert_eq!(m.pre_match(), Some("ä".to_owned()));
    assert_eq!(m.post_match(), Some("ç".to_owned()));
}

#[test]
fn to_a_is_to_s_then_captures() {
    let m = matched(r"(.)(.)(\d+)(\d)", "THX1138.");
    let all = m.to_a().expect("groups");
    let caps = m.captures().expect("groups");
    let whole = m.to_s();
    assert_eq!(all.len(), m.length());
    assert_eq!(m.length(), 5);
    assert_eq!(all[0], whole);
    assert_eq!(all[1..].to_vec(), caps);
    assert_eq!(caps, vec![Some("H".to_owned()), Some("X".to_owned()), Some("113".to_owned()), Some("8".to_owned())]);
}

#[test]
fn optional_group_is_nil() {
    let m = matched("(a)|(b)", "b");
    assert_eq!(m.to_a(), Some(vec![Some("b".to_owned()), None, Some("b".to_owned())]));
    assert!(matches!(m.idx(&vec![Value::Fixnum(1)]), Ok(Indexed::Nil)));
    assert_eq!(m.begin(&vec![Value::Fixnum(1)]), Ok(None));
}

#[test]
fn negative_index_counts_from_the_end() {
    let m = matched(r"(.)(.)(\d+)(\d)", "THX1138.");
    assert_eq!(text(m.idx(&vec![Value::Fixnum(-1)])), text(m.idx(&vec![Value::Fixnum(4)])));
    assert_eq!(text(m.idx(&vec![Value::Fixnum(-1)])), Some("8".to_owned()));
    assert!(matches!(m.idx(&vec![Value::Fixnum(-6)]), Ok(Indexed::Nil)));
    assert!(matches!(m.idx(&vec![Value::Fixnum(5)]), Ok(Indexed::Nil)));
}

#[test]
fn start_and_length_past_the_end() {
    let m = matched(r"(.)(.)(\d+)(\d)", "THX1138.");
    match m.idx(&vec![Value::Fixnum(3), Value::Fixnum(4)]) {
        Ok(Indexed::List(v)) => assert_eq!(v, vec![Some("113".to_owned()), Some("8".to_owned()), None, None]),
        _ => panic!("list expected"),
    }
    assert!(matches!(m.idx(&vec![Value::Fixnum(0), Value::Fixnum(-1)]), Ok(Indexed::Nil)));
    let range = Value::Range { start: 10, end: 12, exclude_end: false };
    assert!(matches!(m.idx(&vec![range]), Ok(Indexed::Nil)));
    let range = Value::Range { start: -2, end: -1, exclude_end: false };
    match m.idx(&vec![range]) {
        Ok(Indexed::List(v)) => assert_eq!(v, vec![Some("113".to_owned()), Some("8".to_owned())]),
        _ => panic!("list expected"),
    }
    let range = Value::Range { start: 1, end: 3, exclude_end: true };
    match m.idx(&vec![range]) {
        Ok(Indexed::List(v)) => assert_eq!(v, vec![Some("H".to_owned()), Some("X".to_owned())]),
        _ => panic!("list expected"),
    }
}

#[test]
fn match_index_extraction() {
    assert!(matches!(MatchIndex::extract(&vec![Value::Fixnum(2)], 5), Ok(Some(MatchIndex::Index(2)))));
    assert!(matches!(MatchIndex::extract(&vec![Value::Range { start: 1, end: 3, exclude_end: false }], 5), Ok(Some(MatchIndex::StartLen(1, 3)))));
    assert!(matches!(MatchIndex::extract(&vec![Value::Range { start: 2, end: 9, exclude_end: false }], 5), Ok(Some(MatchIndex::StartLen(2, 3)))));
    assert!(matches!(MatchIndex::extract(&vec![Value::Range { start: -9, end: 2, exclude_end: false }], 5), Ok(None)));
    assert_eq!(
        MatchIndex::extract(&vec![Value::Nil], 5).map(|_| ()),
        Err(RegexpError::Conversion { from: RubyType::Nil, to: RustType::Integer })
    );
    assert_eq!(
        MatchIndex::extract(&vec![Value::Fixnum(1), s("x")], 5).map(|_| ()),
        Err(RegexpError::Conversion { from: RubyType::String, to: RustType::Integer })
    );
    assert_eq!(MatchIndex::extract(&vec![], 5).map(|_| ()), Err(RegexpError::WrongArgumentCount));
}

#[test]
fn begin_not_after_end() {
    let m = matched(r"(.)(.)(\d+)(\d)", "THX1138.");
    for k in 0..5 {
        let b = m.begin(&vec![Value::Fixnum(k)]).expect("index").expect("group");
        let e = m.end(&vec![Value::Fixnum(k)]).expect("index").expect("group");
        assert!(b <= e);
    }
    assert_eq!(
        m.begin(&vec![Value::Fixnum(0), Value::Fixnum(1)]),
        Err(RegexpError::MustPassIndexOrSymbol)
    );
    assert_eq!(m.end(&vec![Value::Fixnum(9)]), Ok(None));
    assert_eq!(m.begin(&vec![s("nope")]), Ok(None));
}

#[test]
fn offsets_count_characters() {
    let m = matched("b+", "äöbbc");
    assert_eq!(m.begin(&vec![Value::Fixnum(0)]), Ok(Some(2)));
    assert_eq!(m.end(&vec![Value::Fixnum(0)]), Ok(Some(4)));
}

#[test]
fn error_messages() {
    assert_eq!(RegexpError::InvalidFlags.class_name(), "ArgumentError");
    assert_eq!(RegexpError::InvalidEncoding.message(), "Invalid Regexp encoding");
    assert_eq!(RegexpError::MustPassIndexOrSymbol.message(), "must pass index or symbol");
    assert_eq!(RegexpError::WrongArgumentCount.class_name(), "ArgumentError");
    assert_eq!(RegexpError::LiteralSyntax.class_name(), "SyntaxError");
    assert_eq!(
        RegexpError::Conversion { from: RubyType::Symbol, to: RustType::Regexp }.message(),
        "conversion error: failed to convert from ruby Symbol to rust Regexp"
    );
}

#[test]
fn definitions_of_the_classes() {
    let defs = init();
    assert_eq!(defs.regexp_class, "Regexp");
    assert_eq!(defs.match_data_class, "MatchData");
    assert_eq!(defs.regexp_methods.len(), 14);
    assert_eq!(defs.match_data_methods.len(), 13);
    assert_eq!(defs.regexp_methods[4].name, "match?");
    assert_eq!(defs.regexp_methods[4].handler, Handler::IsMatch);
    assert_eq!(defs.match_data_methods[6].name, "size");
    assert_eq!(defs.match_data_methods[6].handler, Handler::MatchLength);
    assert_eq!(defs.regexp_constants, vec![("IGNORECASE", 1), ("EXTENDED", 2), ("MULTILINE", 4)]);
}

#[test]
fn engine_giving_up_is_refused() {
    let r = Regexp::literal("^(a|aa)*$", "").expect("compiles");
    let text = format!("{}!", "a".repeat(60));
    assert_eq!(r.is_match(Some(text.as_str()), None), Err(RegexpError::SearchFailed));
    assert_eq!(r.equal_squiggle(Some(text.as_str()), None), Err(RegexpError::SearchFailed));
    assert!(matches!(r.match_(Some(text.clone()), None), Err(RegexpError::SearchFailed)));
    assert!(matches!(r.equal_equal_equal(Some(text)), Err(RegexpError::SearchFailed)));
    assert_eq!(r.is_match(Some("aaaa"), None), Ok(Some(true)));
    assert_eq!(RegexpError::SearchFailed.class_name(), "RegexpError");
    assert_eq!(RegexpError::SearchFailed.message(), "regexp search failed");
}

#[test]
fn case_equality_leaves_the_match_behind() {
    let r = Regexp::literal(r"(\d)(\d)", "").expect("compiles");
    let (found, outcome) = r.equal_equal_equal(Some("ab12".to_owned())).expect("search");
    assert!(found);
    let outcome = outcome.expect("string");
    assert_eq!(outcome.last_match, Some("12".to_owned()));
    let groups = outcome.groups.expect("groups");
    assert_eq!(groups[0], Some("1".to_owned()));
    assert_eq!(groups[1], Some("2".to_owned()));
    assert_eq!(outcome.data.expect("match").to_s(), Some("12".to_owned()));
    let (found, outcome) = r.equal_equal_equal(Some("abc".to_owned())).expect("search");
    assert!(!found);
    let outcome = outcome.expect("string");
    assert!(outcome.data.is_none());
    assert_eq!(outcome.last_match, None);
    let (found, outcome) = r.equal_equal_equal(None).expect("search");
    assert!(!found);
    assert!(outcome.is_none());
}

#[test]
fn end_minus_begin_is_group_length() {
    let m = matched("b", "éb");
    assert_eq!(m.begin(&vec![Value::Fixnum(0)]), Ok(Some(1)));
    assert_eq!(m.end(&vec![Value::Fixnum(0)]), Ok(Some(2)));
    let m = matched("(é+)x", "aééx");
    let b = m.begin(&vec![Value::Fixnum(1)]).expect("index").expect("group");
    let e = m.end(&vec![Value::Fixnum(1)]).expect("index").expect("group");
    let t = text(m.idx(&vec![Value::Fixnum(1)])).expect("group");
    assert_eq!((b, e), (1, 3));
    assert_eq!(t, "éé");
    assert_eq!((e - b) as usize, t.chars().count());
}

#[test]
fn begin_with_start_and_length_is_refused() {
    let m = matched("(a)", "xa");
    let args = vec![Value::Fixnum(i64::MIN), Value::Fixnum(1)];
    assert_eq!(m.begin(&args), Err(RegexpError::MustPassIndexOrSymbol));
    assert_eq!(m.end(&args), Err(RegexpError::MustPassIndexOrSymbol));
}

#[test]
fn a_shared_name_is_listed_once() {
    let r = Regexp::literal("(?<bar>.)(?<bar>.)", "").expect("compiles");
    assert_eq!(r.names(), Some(vec!["bar".to_owned()]));
    assert_eq!(r.named_captures(), Some(vec![("bar".to_owned(), vec![1, 2])]));
    let m = r.match_(Some("xy".to_owned()), None).expect("search").and_then(|o| o.data).expect("matches");
    let named = m.named_captures().expect("groups");
    assert_eq!(named.len(), 1);
    assert_eq!(named[0].0, "bar");
}

#[test]
fn named_group_numbers_lie_within_the_groups() {
    let r = Regexp::literal("(?<foo>a+)b", "").expect("compiles");
    assert_eq!(r.named_captures(), Some(vec![("foo".to_owned(), vec![1])]));
    assert_eq!(r.names(), Some(vec!["foo".to_owned()]));
    let m = r.match_(Some("xaab".to_owned()), None).expect("search").and_then(|o| o.data).expect("matches");
    for (_, numbers) in r.named_captures().expect("names") {
        assert!(!numbers.is_empty());
        for n in numbers {
            assert!(1 <= n && (n as usize) < m.length());
        }
    }
    assert_eq!(m.begin(&vec![s("foo")]), Ok(Some(1)));
    assert_eq!(m.end(&vec![s("foo")]), Ok(Some(3)));
    assert_eq!(text(m.idx(&vec![s("foo")])), Some("aa".to_owned()));
}
