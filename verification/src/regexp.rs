use vstd::prelude::*;
use vstd::string::StringSliceAdditionalSpecFns;
use vstd::utf8::encode_utf8;

use crate::encoding::{Encoding, count_encoding_letters, encoding_from_value_spec};
use crate::engine::{
    Compiled,
    capture_names,
    compile,
    opt_view,
    names_agree,
    onig_compiles,
    onig_names,
    onig_search,
    search,
    writes_keep,
};
use crate::error::RegexpError;
use crate::match_data::{MatchData, MatchDataView, around_match_spec, group_at, group_text_in, positions_view, valid_match};
use crate::text::{byte_slice, byte_slice_spec};
use crate::options::{
    Options,
    flag_bits,
    from_pattern_spec,
    literal_letters,
    no_options,
    options_from_value_spec,
};
use crate::syntax::{escape, escape_spec};
use crate::text::contains_char;
use crate::value::{RustType, Value, ruby_type_of};

verus! {

/// What a regexp is, as contracts speak of it.
pub struct RegexpView {
    pub literal_pattern: Seq<char>,
    pub pattern: Seq<char>,
    pub literal_options: Options,
    pub options: Options,
    pub encoding: Encoding,
}

/// A Ruby regexp: the pattern as the user wrote it with its options, the
/// pattern that the engine compiles with its options, and the encoding.
/// The engine compiles every `Regexp`.
pub struct Regexp {
    literal_pattern: String,
    pattern: String,
    literal_options: Options,
    options: Options,
    encoding: Encoding,
}

impl View for Regexp {
    type V = RegexpView;

    closed spec fn view(&self) -> RegexpView {
        RegexpView {
            literal_pattern: self.literal_pattern@,
            pattern: self.pattern@,
            literal_options: self.literal_options,
            options: self.options,
            encoding: self.encoding,
        }
    }
}

/// The view of a result that may hold a regexp.
pub open spec fn result_view(r: Result<Regexp, RegexpError>) -> Result<RegexpView, RegexpError> {
    match r {
        Ok(x) => Ok(x@),
        Err(e) => Err(e),
    }
}

/// The regexp that the pattern `literal` written with `literal_options` and
/// `encoding` makes: the engine is handed the pattern and options that
/// `from_pattern_spec` gives, and a pattern it does not compile is refused
/// as malformed.
pub open spec fn build_spec(literal: Seq<char>, literal_options: Options, encoding: Encoding) -> Result<
    RegexpView,
    RegexpError,
> {
    let (pattern, options) = from_pattern_spec(literal, literal_options);
    if onig_compiles(pattern, flag_bits(options)) {
        Ok(
            RegexpView {
                literal_pattern: literal,
                pattern,
                literal_options,
                options,
                encoding,
            },
        )
    } else {
        Err(RegexpError::Malformed)
    }
}

/// The pattern that the first argument of `Regexp.new` gives: the engine
/// pattern of a regexp, or a string; any other value is refused.
pub open spec fn pattern_arg_spec(v: &Value) -> Result<Seq<char>, RegexpError> {
    match v {
        Value::Regexp(r) => Ok(r@.pattern),
        Value::Str(s) => Ok(s@),
        _ => Err(RegexpError::Conversion { from: ruby_type_of(v), to: RustType::String }),
    }
}

/// The options and the encoding that the optional arguments of
/// `Regexp.new` give. The options argument sets the options; the encoding
/// is named by the encoding argument, or, without one, by the options
/// argument (whose option letters it then allows).
pub open spec fn new_args_spec(options: Option<&Value>, encoding: Option<&Value>) -> Result<
    (Options, Encoding),
    RegexpError,
> {
    let opts = match options {
        Some(o) => options_from_value_spec(o),
        None => Ok(no_options()),
    };
    let enc = match encoding {
        Some(e) => encoding_from_value_spec(e, false),
        None => match options {
            Some(o) => encoding_from_value_spec(o, true),
            None => Ok(Encoding::NoEncoding),
        },
    };
    match opts {
        Err(e) => Err(e),
        Ok(o) => match enc {
            Err(e) => Err(e),
            Ok(n) => Ok((o, n)),
        },
    }
}

/// `Regexp.new(pattern, options, encoding)`: the arguments are read, then
/// the regexp is built.
pub open spec fn initialize_spec(
    pattern: &Value,
    options: Option<&Value>,
    encoding: Option<&Value>,
) -> Result<RegexpView, RegexpError> {
    match new_args_spec(options, encoding) {
        Err(e) => Err(e),
        Ok((o, n)) => match pattern_arg_spec(pattern) {
            Err(e) => Err(e),
            Ok(p) => build_spec(p, o, n),
        },
    }
}

/// The quoted source that `Regexp.union` takes from one of its patterns: a
/// string, or the engine pattern of a regexp; any other value is refused.
pub open spec fn union_source(v: &Value) -> Result<Seq<char>, RegexpError> {
    match v {
        Value::Str(s) => Ok(escape_spec(s@)),
        Value::Regexp(r) => Ok(escape_spec(r@.pattern)),
        _ => Err(RegexpError::Conversion { from: ruby_type_of(v), to: RustType::Regexp }),
    }
}

/// The quoted sources of `ps` joined by `|`, or the first refusal.
pub open spec fn union_sources(ps: Seq<Value>) -> Result<Seq<char>, RegexpError>
    decreases ps.len(),
{
    if ps.len() == 0 {
        Ok(Seq::empty())
    } else {
        match union_sources(ps.drop_last()) {
            Err(e) => Err(e),
            Ok(joined) => match union_source(&ps.last()) {
                Err(e) => Err(e),
                Ok(src) => if ps.len() == 1 {
                    Ok(src)
                } else {
                    Ok(joined + seq!['|'] + src)
                },
            },
        }
    }
}

/// The patterns that `Regexp.union(args)` joins: the elements of a lone
/// array argument, or else the arguments.
pub open spec fn union_patterns(args: Seq<Value>) -> Seq<Value> {
    if args.len() == 1 {
        match args[0] {
            Value::Array(a) => a@,
            _ => args,
        }
    } else {
        args
    }
}

/// `Regexp.union(args)`: the pattern that matches nothing without
/// arguments; otherwise the quoted patterns joined by `|`; built with no
/// options and no encoding.
pub open spec fn union_spec(args: Seq<Value>) -> Result<RegexpView, RegexpError> {
    if args.len() == 0 {
        build_spec(seq!['(', '?', '!', ')'], no_options(), Encoding::NoEncoding)
    } else {
        match union_sources(union_patterns(args)) {
            Err(e) => Err(e),
            Ok(p) => build_spec(p, no_options(), Encoding::NoEncoding),
        }
    }
}

/// `match?`: `nil` without a string; `false` when the start lies beyond
/// the string; otherwise whether the engine finds a match from the start,
/// refused where the engine gives up.
pub open spec fn is_match_spec(r: RegexpView, string: Option<Seq<char>>, pos: Option<usize>) -> Result<Option<bool>, RegexpError> {
    match string {
        None => Ok(None),
        Some(s) => {
            let from = start_of(pos);
            if from > encode_utf8(s).len() {
                Ok(Some(false))
            } else {
                match onig_search(r.pattern, flag_bits(r.options), s, from) {
                    Ok(found) => Ok(Some(found is Some)),
                    Err(_) => Err(RegexpError::SearchFailed),
                }
            }
        },
    }
}

/// `=~`: where the first match in `s` from byte `from` on starts, refused
/// where the engine gives up.
pub open spec fn squiggle_spec(r: RegexpView, s: Seq<char>, from: usize) -> Result<Option<usize>, RegexpError> {
    match onig_search(r.pattern, flag_bits(r.options), s, from) {
        Ok(Some((p, _))) => Ok(Some(p)),
        Ok(None) => Ok(None),
        Err(_) => Err(RegexpError::SearchFailed),
    }
}

/// The view of an optional string slice.
pub open spec fn opt_str_view(s: Option<&str>) -> Option<Seq<char>> {
    match s {
        Some(t) => Some(t@),
        None => None,
    }
}

/// The start of the search that a call with `pos` makes.
pub open spec fn start_of(pos: Option<usize>) -> usize {
    match pos {
        Some(p) => p,
        None => 0,
    }
}

/// What `Regexp#match` leaves behind for a string: the match (the value of
/// `$~` and the answer), the text of the whole match (`$&`), and the texts
/// of groups 1 to 99 (`$1` to `$99`) where they were read.
pub struct MatchOutcome {
    pub data: Option<MatchData>,
    pub last_match: Option<String>,
    pub groups: Option<Vec<Option<String>>>,
}

/// The text of the whole match that a search found, where its range lies on
/// character boundaries.
pub open spec fn last_match_spec(s: Seq<char>, found: Option<(usize, Seq<Option<(usize, usize)>>)>) -> Option<Seq<char>> {
    match found {
        Some((_, g)) => if g.len() > 0 {
            match g[0] {
                Some((b, e)) => byte_slice_spec(s, b as int, e as int),
                None => None,
            }
        } else {
            None
        },
        None => None,
    }
}

/// Whether `o` is what `Regexp#match` leaves behind for the regexp `r`,
/// the string `s` and a search from byte `from`, where the engine answers:
/// the match exists exactly when the search from `from` finds one; `$&` is
/// the text of that match; after a match, groups 1 to 99 are read from the
/// leftmost match in the whole string.
pub open spec fn match_outcome_spec(r: RegexpView, s: Seq<char>, from: usize, o: MatchOutcome) -> bool {
    match onig_search(r.pattern, flag_bits(r.options), s, from) {
        Err(_) => false,
        Ok(None) => o.data is None && o.last_match is None && o.groups is None,
        Ok(Some(found)) => match onig_search(r.pattern, flag_bits(r.options), s, 0) {
            Err(_) => false,
            Ok(at0) => {
                &&& opt_view(o.last_match) == last_match_spec(s, Some(found))
                &&& o.data matches Some(d) && d@ == (MatchDataView { string: s, regexp: r, start_pos: from })
                    && valid_match(d@)
                &&& match at0 {
                    None => o.groups is None,
                    Some((_, g)) => o.groups matches Some(v) && v@.len() == 99 && forall|k: int|
                        0 <= k < 99 ==> opt_view(#[trigger] v@[k]) == group_at(s, g, k + 1),
                }
            },
        },
    }
}

/// Whether the engine gives up a search that `Regexp#match` makes for `r`,
/// `s` and `from`: the search from `from`, or, after it found a match, the
/// search of the whole string.
pub open spec fn match_gives_up(r: RegexpView, s: Seq<char>, from: usize) -> bool {
    match onig_search(r.pattern, flag_bits(r.options), s, from) {
        Err(_) => true,
        Ok(None) => false,
        Ok(Some(_)) => onig_search(r.pattern, flag_bits(r.options), s, 0) is Err,
    }
}

/// `Regexp#match(string, pos)`: nothing for a `nil` string; the refusal
/// where the engine gives up; otherwise what the match leaves behind.
pub open spec fn match_spec(
    r: RegexpView,
    string: Option<Seq<char>>,
    from: usize,
    res: Result<Option<MatchOutcome>, RegexpError>,
) -> bool {
    match string {
        None => res matches Ok(None),
        Some(s) => match res {
            Ok(Some(o)) => match_outcome_spec(r, s, from, o),
            Ok(None) => false,
            Err(e) => e == RegexpError::SearchFailed && match_gives_up(r, s, from),
        },
    }
}

/// Whether each name of `v` carries at least one group, each numbered
/// from 1.
pub open spec fn group_numbers_from_one(v: Seq<(String, Vec<i64>)>) -> bool {
    forall|i: int|
        0 <= i < v.len() ==> (#[trigger] v[i]).1@.len() > 0 && forall|k: int|
            0 <= k < v[i].1@.len() ==> 1 <= #[trigger] v[i].1@[k]
}

/// Whether every group number of `v` lies below the number of group ranges
/// `g` that a match reports, so names only groups that a match has.
pub open spec fn group_numbers_below(v: Seq<(String, Vec<i64>)>, g: Seq<Option<(usize, usize)>>) -> bool {
    forall|i: int, k: int| 0 <= i < v.len() && 0 <= k < v[i].1@.len() ==> #[trigger] v[i].1@[k] < g.len()
}

/// Whether `c` may follow a regexp literal: an option or an encoding letter.
pub open spec fn is_literal_flag(c: char) -> bool {
    c == 'i' || c == 'm' || c == 'x' || c == 'u' || c == 'n'
}

/// The regexp that the literal `/p/flags` makes: a letter that is neither
/// an option nor an encoding is a syntax error; more than one encoding
/// letter is refused; otherwise the literal is compiled with the options
/// and the encoding that its letters name.
pub open spec fn literal_spec(p: Seq<char>, flags: Seq<char>) -> Result<RegexpView, RegexpError> {
    if exists|i: int| 0 <= i < flags.len() && !is_literal_flag(#[trigger] flags[i]) {
        Err(RegexpError::LiteralSyntax)
    } else if count_encoding_letters(flags) > 1 {
        Err(RegexpError::InvalidEncoding)
    } else {
        build_spec(
            p,
            Options {
                ignore_case: flags.contains('i'),
                extended: flags.contains('x'),
                multiline: flags.contains('m'),
            },
            if flags.contains('u') {
                Encoding::Fixed
            } else {
                Encoding::NoEncoding
            },
        )
    }
}

impl Regexp {
    #[verifier::type_invariant]
    spec fn engine_compiles(self) -> bool {
        onig_compiles(self.pattern@, flag_bits(self.options))
    }

    /// The regexp with these parts, if the engine compiles `pattern` with
    /// `options`.
    pub fn new(
        literal_pattern: String,
        pattern: String,
        literal_options: Options,
        options: Options,
        encoding: Encoding,
    ) -> (r: Option<Self>)
        ensures
            r is Some <==> onig_compiles(pattern@, flag_bits(options)),
            r matches Some(x) ==> x@ == (RegexpView {
                literal_pattern: literal_pattern@,
                pattern: pattern@,
                literal_options,
                options,
                encoding,
            }),
    {
        let compiled = compile(pattern.as_str(), options.flags());
        if compiled.is_none() {
            None
        } else {
            Some(Regexp { literal_pattern, pattern, literal_options, options, encoding })
        }
    }

    /// The engine's compiled form of this regexp.
    pub fn regex(&self) -> (r: Option<Compiled>)
        ensures
            r matches Some(c) && c.pattern() == self@.pattern && c.options() == flag_bits(
                self@.options,
            ),
    {
        proof {
            use_type_invariant(self);
        }
        compile(self.pattern.as_str(), self.options.flags())
    }

    /// The arguments that rebuild this regexp with `Regexp.new`: its engine
    /// pattern, its option bits and its encoding flag.
    pub fn new_obj_args(&self) -> (args: (String, u32, i64))
        ensures
            args.0@ == self@.pattern,
            args.1 == flag_bits(self@.options),
            args.2 == crate::encoding::encoding_bits(self@.encoding),
    {
        (self.pattern.clone(), self.options.flags(), self.encoding.flags())
    }

    fn build(literal_pattern: String, literal_options: Options, encoding: Encoding) -> (res: Result<
        Self,
        RegexpError,
    >)
        ensures
            result_view(res) == build_spec(literal_pattern@, literal_options, encoding),
    {
        let (pattern, options) = Options::from_pattern(literal_pattern.as_str(), literal_options);
        match Self::new(literal_pattern, pattern, literal_options, options, encoding) {
            Some(data) => Ok(data),
            None => Err(RegexpError::Malformed),
        }
    }

    fn new_args(options: Option<&Value>, encoding: Option<&Value>) -> (res: Result<
        (Options, Encoding),
        RegexpError,
    >)
        ensures
            res == new_args_spec(options, encoding),
    {
        let opts = match options {
            Some(o) => Options::from_value(o),
            None => Ok(Options::default()),
        };
        let enc = match encoding {
            Some(e) => Encoding::from_value(e, false),
            None => match options {
                Some(o) => Encoding::from_value(o, true),
                None => Ok(Encoding::default()),
            },
        };
        match opts {
            Err(e) => Err(e),
            Ok(o) => match enc {
                Err(e) => Err(e),
                Ok(n) => Ok((o, n)),
            },
        }
    }

    fn pattern_arg(pattern: &Value) -> (res: Result<String, RegexpError>)
        ensures
            match res {
                Ok(s) => pattern_arg_spec(pattern) == Ok::<Seq<char>, RegexpError>(s@),
                Err(e) => pattern_arg_spec(pattern) == Err::<Seq<char>, RegexpError>(e),
            },
    {
        match pattern {
            Value::Regexp(r) => Ok(r.pattern.clone()),
            Value::Str(s) => Ok(s.clone()),
            _ => Err(RegexpError::Conversion { from: pattern.ruby_type(), to: RustType::String }),
        }
    }

    /// `Regexp.new(pattern, options, encoding)`, for the arguments given.
    pub fn initialize(pattern: &Value, options: Option<&Value>, encoding: Option<&Value>) -> (res:
        Result<Self, RegexpError>)
        ensures
            result_view(res) == initialize_spec(pattern, options, encoding),
    {
        let (literal_options, encoding) = match Self::new_args(options, encoding) {
            Ok(args) => args,
            Err(e) => return Err(e),
        };
        let literal_pattern = match Self::pattern_arg(pattern) {
            Ok(p) => p,
            Err(e) => return Err(e),
        };
        Self::build(literal_pattern, literal_options, encoding)
    }

    /// `Regexp.compile(pattern, options, encoding)`, which is
    /// `Regexp.new`.
    pub fn compile(pattern: &Value, options: Option<&Value>, encoding: Option<&Value>) -> (res:
        Result<Self, RegexpError>)
        ensures
            result_view(res) == initialize_spec(pattern, options, encoding),
    {
        Self::initialize(pattern, options, encoding)
    }

    /// The regexp that the literal `/pattern/flags` makes.
    pub fn literal(pattern: &str, flags: &str) -> (res: Result<Self, RegexpError>)
        ensures
            result_view(res) == literal_spec(pattern@, flags@),
    {
        let ghost f = flags@;
        for c in it: flags.chars()
            invariant
                it.seq() == f,
                f == flags@,
                forall|j: int| 0 <= j < it.index() ==> is_literal_flag(#[trigger] f[j]),
        {
            if !(c == 'i' || c == 'm' || c == 'x' || c == 'u' || c == 'n') {
                assert(!is_literal_flag(f[it.index()]));
                return Err(RegexpError::LiteralSyntax);
            }
        }
        let encoding = match Encoding::from_letters(flags, true) {
            Ok(e) => e,
            Err(e) => {
                assert(forall|j: int| 0 <= j < f.len() ==> crate::encoding::allowed_letter(#[trigger] f[j], true));
                return Err(e);
            },
        };
        let options = Options {
            ignore_case: contains_char(flags, 'i'),
            extended: contains_char(flags, 'x'),
            multiline: contains_char(flags, 'm'),
        };
        Self::build(pattern.to_owned(), options, encoding)
    }

    /// `Regexp.escape(text)`: the regexp whose pattern is `text` quoted.
    pub fn escape(text: &str) -> (res: Result<Self, RegexpError>)
        ensures
            result_view(res) == build_spec(escape_spec(text@), no_options(), Encoding::NoEncoding),
    {
        let quoted = escape(text);
        let arg = Value::Str(quoted);
        Self::initialize(&arg, None, None)
    }

    fn union_source(v: &Value) -> (res: Result<String, RegexpError>)
        ensures
            match res {
                Ok(s) => union_source(v) == Ok::<Seq<char>, RegexpError>(s@),
                Err(e) => union_source(v) == Err::<Seq<char>, RegexpError>(e),
            },
    {
        match v {
            Value::Str(s) => Ok(escape(s.as_str())),
            Value::Regexp(r) => Ok(escape(r.pattern.as_str())),
            _ => Err(RegexpError::Conversion { from: v.ruby_type(), to: RustType::Regexp }),
        }
    }

    fn join_sources(ps: &Vec<Value>) -> (res: Result<String, RegexpError>)
        ensures
            match res {
                Ok(s) => union_sources(ps@) == Ok::<Seq<char>, RegexpError>(s@),
                Err(e) => union_sources(ps@) == Err::<Seq<char>, RegexpError>(e),
            },
    {
        let mut joined = String::new();
        let mut i: usize = 0;
        assert(ps@.take(0) =~= Seq::<Value>::empty());
        while i < ps.len()
            invariant
                i <= ps@.len(),
                union_sources(ps@.take(i as int)) == Ok::<Seq<char>, RegexpError>(joined@),
            decreases ps@.len() - i,
        {
            assert(ps@.take(i + 1).drop_last() =~= ps@.take(i as int));
            assert(ps@.take(i + 1).last() == ps@[i as int]);
            let src = match Self::union_source(&ps[i]) {
                Ok(s) => s,
                Err(e) => {
                    proof {
                        lemma_union_sources_err(ps@, i as int + 1);
                    }
                    return Err(e);
                },
            };
            let ghost before = joined@;
            if i > 0 {
                proof {
                    reveal_strlit("|");
                }
                joined.append("|");
            }
            joined.append(src.as_str());
            proof {
                if i == 0 {
                    assert(before =~= Seq::<char>::empty());
                    assert(joined@ =~= src@);
                } else {
                    assert(joined@ =~= before + seq!['|'] + src@);
                }
            }
            i = i + 1;
        }
        assert(ps@.take(ps@.len() as int) =~= ps@);
        Ok(joined)
    }

    /// `Regexp.union(args)`: a regexp that matches any of the patterns,
    /// each quoted.
    pub fn union(args: &Vec<Value>) -> (res: Result<Self, RegexpError>)
        ensures
            result_view(res) == union_spec(args@),
    {
        let pattern = if args.len() == 0 {
            proof {
                reveal_strlit("(?!)");
            }
            let empty = String::from_str("(?!)");
            assert(empty@ =~= seq!['(', '?', '!', ')']);
            empty
        } else {
            let joined = if args.len() == 1 {
                match &args[0] {
                    Value::Array(a) => Self::join_sources(a),
                    _ => Self::join_sources(args),
                }
            } else {
                Self::join_sources(args)
            };
            match joined {
                Ok(p) => p,
                Err(e) => return Err(e),
            }
        };
        Self::build(pattern, Options::default(), Encoding::default())
    }

    /// `match?(string, pos)`: whether the regexp matches `string` from
    /// byte `pos` on; `None` for a `nil` string.
    pub fn is_match(&self, string: Option<&str>, pos: Option<usize>) -> (res: Result<Option<bool>, RegexpError>)
        ensures
            res == is_match_spec(self@, opt_str_view(string), pos),
    {
        let string = match string {
            Some(s) => s,
            None => return Ok(None),
        };
        let from = match pos {
            Some(p) => p,
            None => 0,
        };
        if from > string.as_bytes().len() {
            return Ok(Some(false));
        }
        let re = match self.regex() {
            Some(re) => re,
            None => return Ok(Some(false)),
        };
        match search(&re, string, from) {
            Ok(found) => Ok(Some(found.is_some())),
            Err(_) => Err(RegexpError::SearchFailed),
        }
    }

    /// `=~`: the byte position where the first match from byte `pos` on
    /// starts; `None` for a `nil` string or no match.
    pub fn equal_squiggle(&self, string: Option<&str>, pos: Option<usize>) -> (res: Result<Option<usize>, RegexpError>)
        requires
            string matches Some(s) ==> start_of(pos) <= s.spec_bytes().len(),
        ensures
            res == match string {
                None => Ok(None),
                Some(s) => squiggle_spec(self@, s@, start_of(pos)),
            },
            string matches Some(s) ==> (res matches Ok(Some(p)) ==> start_of(pos) <= p && (!writes_keep(
                self@.pattern,
            ) ==> (onig_search(self@.pattern, flag_bits(self@.options), s@, start_of(pos)) matches Ok(
                Some((_, g)),
            ) && g[0] matches Some((b, _)) && b == p))),
            string matches Some(s) ==> (res matches Ok(Some(p)) ==> (pos is None && !writes_keep(self@.pattern)
                ==> around_match_spec(MatchDataView { string: s@, regexp: self@, start_pos: 0 }, false)
                == byte_slice_spec(s@, 0, p as int))),
    {
        let string = match string {
            Some(s) => s,
            None => return Ok(None),
        };
        let from = match pos {
            Some(p) => p,
            None => 0,
        };
        let re = match self.regex() {
            Some(re) => re,
            None => return Ok(None),
        };
        match search(&re, string, from) {
            Ok(Some((p, _))) => Ok(Some(p)),
            Ok(None) => Ok(None),
            Err(_) => Err(RegexpError::SearchFailed),
        }
    }

    /// `match(string, pos)`: searches `string` from byte `pos` on; `None`
    /// for a `nil` string, which leaves the last-match globals alone.
    pub fn match_(&self, string: Option<String>, pos: Option<usize>) -> (r: Result<Option<MatchOutcome>, RegexpError>)
        requires
            string matches Some(s) ==> start_of(pos) <= encode_utf8(s@).len(),
        ensures
            match_spec(self@, opt_view(string), start_of(pos), r),
    {
        let string = match string {
            Some(s) => s,
            None => return Ok(None),
        };
        let from = match pos {
            Some(p) => p,
            None => 0,
        };
        let re = match self.regex() {
            Some(re) => re,
            None => return Ok(None),
        };
        let found = match search(&re, string.as_str(), from) {
            Ok(found) => found,
            Err(_) => return Err(RegexpError::SearchFailed),
        };
        let last_match = match &found {
            Some((_, g)) => {
                if g.len() > 0 {
                    match g[0] {
                        Some((b, e)) => match byte_slice(string.as_str(), b, e) {
                            Some(t) => Some(t.to_owned()),
                            None => None,
                        },
                        None => None,
                    }
                } else {
                    None
                }
            },
            None => None,
        };
        if found.is_none() {
            return Ok(Some(MatchOutcome { data: None, last_match, groups: None }));
        }
        let text = string.as_str();
        proof {
            broadcast use vstd::utf8::group_utf8_lib;
            vstd::utf8::is_char_boundary_start_end_of_seq(text.spec_bytes());
        }
        let positions = match search(&re, text, 0) {
            Ok(Some((_, g))) => Some(g),
            Ok(None) => None,
            Err(_) => return Err(RegexpError::SearchFailed),
        };
        let ghost md = MatchDataView { string: string@, regexp: self@, start_pos: from };
        assert(valid_match(md));
        assert(positions_view(positions) == crate::match_data::groups_of(md));
        let groups = match &positions {
            Some(g) => {
                let mut v: Vec<Option<String>> = Vec::new();
                let mut k: usize = 1;
                while k <= 99
                    invariant
                        1 <= k <= 100,
                        v@.len() == k - 1,
                        forall|i: int| 0 <= i < k - 1 ==> opt_view(#[trigger] v@[i]) == group_at(string@, g@, i + 1),
                    decreases 100 - k,
                {
                    v.push(group_text_in(string.as_str(), g, k));
                    k = k + 1;
                }
                Some(v)
            },
            None => None,
        };
        let data = MatchData::from_parts(string, self.clone(), from, positions);
        Ok(Some(MatchOutcome { data: Some(data), last_match, groups }))
    }

    /// `===`: whether the regexp matches `string` (`false` for `nil`),
    /// with what `match` leaves behind for it.
    pub fn equal_equal_equal(&self, string: Option<String>) -> (res: Result<(bool, Option<MatchOutcome>), RegexpError>)
        ensures
            match res {
                Ok((b, o)) => match_spec(self@, opt_view(string), 0, Ok(o)) && b == (o matches Some(x)
                    && x.data is Some),
                Err(e) => match_spec(self@, opt_view(string), 0, Err(e)),
            },
    {
        match self.match_(string, None) {
            Ok(outcome) => {
                let matched = match &outcome {
                    Some(o) => o.data.is_some(),
                    None => false,
                };
                Ok((matched, outcome))
            },
            Err(e) => Err(e),
        }
    }

    /// `==`: whether `other` is a regexp with the same engine pattern.
    pub fn equal_equal(&self, other: &Value) -> (b: bool)
        ensures
            b == match other {
                Value::Regexp(o) => o@.pattern == self@.pattern,
                _ => false,
            },
    {
        match other {
            Value::Regexp(o) => o.pattern == self.pattern,
            _ => false,
        }
    }

    /// `names`: the names of the named groups, in the engine's order.
    pub fn names(&self) -> (res: Option<Vec<String>>)
        ensures
            res matches Some(v) && v@.len() == onig_names(self@.pattern, flag_bits(self@.options)).len()
                && forall|i: int|
                0 <= i < v@.len() ==> (#[trigger] v@[i])@ == onig_names(
                    self@.pattern,
                    flag_bits(self@.options),
                )[i].0,
            res matches Some(v) && forall|i: int, j: int|
                0 <= i < j < v@.len() ==> (#[trigger] v@[i])@ != (#[trigger] v@[j])@,
    {
        match self.regex() {
            Some(re) => {
                let all = capture_names(&re);
                let mut names: Vec<String> = Vec::new();
                for i in 0..all.len()
                    invariant
                        names_agree(all@, onig_names(re.pattern(), re.options())),
                        forall|a: int, b: int| 0 <= a < b < all@.len() ==> (#[trigger] all@[a]).0@ != (#[trigger] all@[b]).0@,
                        names@.len() == i,
                        forall|j: int| 0 <= j < i ==> (#[trigger] names@[j])@ == all@[j].0@,
                {
                    names.push(all[i].0.clone());
                }
                Some(names)
            },
            None => None,
        }
    }

    /// `named_captures`: each name with the numbers of its groups.
    pub fn named_captures(&self) -> (res: Option<Vec<(String, Vec<i64>)>>)
        ensures
            res matches Some(v) && v@.len() == onig_names(self@.pattern, flag_bits(self@.options)).len()
                && forall|i: int|
                0 <= i < v@.len() ==> {
                    let n = onig_names(self@.pattern, flag_bits(self@.options))[i];
                    &&& (#[trigger] v@[i]).0@ == n.0
                    &&& v@[i].1@.len() == n.1.len()
                    &&& forall|k: int| 0 <= k < n.1.len() ==> v@[i].1@[k] == n.1[k] as i64
                },
            res matches Some(v) && forall|i: int, j: int|
                0 <= i < j < v@.len() ==> (#[trigger] v@[i]).0@ != (#[trigger] v@[j]).0@,
            res matches Some(v) && group_numbers_from_one(v@),
            res matches Some(v) && forall|text: Seq<char>, from: usize|
                #![trigger onig_search(self@.pattern, flag_bits(self@.options), text, from)]
                onig_search(self@.pattern, flag_bits(self@.options), text, from) matches Ok(Some((_, g)))
                    ==> group_numbers_below(v@, g),
    {
        match self.regex() {
            Some(re) => {
                let all = capture_names(&re);
                let ghost n = onig_names(re.pattern(), re.options());
                let mut map: Vec<(String, Vec<i64>)> = Vec::new();
                for i in 0..all.len()
                    invariant
                        names_agree(all@, n),
                        forall|a: int, b: int| 0 <= a < b < all@.len() ==> (#[trigger] all@[a]).0@ != (#[trigger] all@[b]).0@,
                        map@.len() == i,
                        forall|j: int|
                            0 <= j < i ==> {
                                &&& (#[trigger] map@[j]).0@ == n[j].0
                                &&& map@[j].1@.len() == n[j].1.len()
                                &&& forall|k: int| 0 <= k < n[j].1.len() ==> map@[j].1@[k] == n[j].1[k] as i64
                            },
                {
                    let groups = &all[i].1;
                    let mut positions: Vec<i64> = Vec::new();
                    for k in 0..groups.len()
                        invariant
                            groups@ == n[i as int].1,
                            positions@.len() == k,
                            forall|m: int| 0 <= m < k ==> positions@[m] == groups@[m] as i64,
                    {
                        positions.push(groups[k] as i64);
                    }
                    map.push((all[i].0.clone(), positions));
                }
                assert forall|a: int, b: int| 0 <= a < b < map@.len() implies (#[trigger] map@[a]).0@
                    != (#[trigger] map@[b]).0@ by {
                    assert(all@[a].0@ == n[a].0);
                    assert(all@[b].0@ == n[b].0);
                }
                assert forall|a: int| 0 <= a < map@.len() implies (#[trigger] map@[a]).1@.len() > 0
                    && forall|k: int| 0 <= k < map@[a].1@.len() ==> 1 <= #[trigger] map@[a].1@[k] by {
                    assert(all@[a].1@ == n[a].1);
                    assert forall|k: int| 0 <= k < map@[a].1@.len() implies 1 <= #[trigger] map@[a].1@[k] by {
                        assert(1 <= all@[a].1@[k]);
                    }
                }
                assert forall|text: Seq<char>, from: usize|
                    #![trigger onig_search(self@.pattern, flag_bits(self@.options), text, from)]
                    (onig_search(self@.pattern, flag_bits(self@.options), text, from) matches Ok(Some((_, g)))
                        ==> group_numbers_below(map@, g)) by {
                    match onig_search(re.pattern(), re.options(), text, from) {
                        Ok(Some((_, g))) => {
                            assert forall|a: int, k: int| 0 <= a < map@.len() && 0 <= k < map@[a].1@.len()
                                implies #[trigger] map@[a].1@[k] < g.len() by {
                                assert(all@[a].1@ == n[a].1);
                                assert(all@[a].1@[k] < g.len());
                            }
                        },
                        _ => {},
                    }
                }
                Some(map)
            },
            None => None,
        }
    }

    /// `options`: the option bits the regexp was written with.
    pub fn options(&self) -> (bits: u32)
        ensures
            bits == flag_bits(self@.literal_options),
    {
        self.literal_options.flags()
    }

    /// `to_s`: the engine pattern.
    pub fn to_s(&self) -> (s: String)
        ensures
            s@ == self@.pattern,
    {
        self.pattern.clone()
    }

    /// `inspect`: the regexp as a literal, `/pattern/flags`.
    pub fn inspect(&self) -> (s: String)
        ensures
            s@ == seq!['/'] + self@.literal_pattern + seq!['/'] + literal_letters(
                self@.literal_options,
            ),
    {
        proof {
            reveal_strlit("/");
        }
        let mut s = String::from_str("/");
        s.append(self.literal_pattern.as_str());
        s.append("/");
        let flags = self.literal_options.as_literal_string();
        s.append(flags.as_str());
        s
    }
}

proof fn lemma_union_sources_err(ps: Seq<Value>, k: int)
    requires
        0 < k <= ps.len(),
        union_sources(ps.take(k)) is Err,
    ensures
        union_sources(ps) == union_sources(ps.take(k)),
    decreases ps.len() - k,
{
    if k < ps.len() {
        assert(ps.take(k + 1).drop_last() =~= ps.take(k));
        lemma_union_sources_err(ps, k + 1);
    } else {
        assert(ps.take(k) =~= ps);
    }
}

impl Clone for Regexp {
    fn clone(&self) -> (r: Self)
        ensures
            r@ == self@,
    {
        proof {
            use_type_invariant(self);
        }
        Regexp {
            literal_pattern: self.literal_pattern.clone(),
            pattern: self.pattern.clone(),
            literal_options: self.literal_options,
            options: self.options,
            encoding: self.encoding,
        }
    }
}

/// How many arguments a Ruby method takes.
#[derive(Debug, Clone, Copy, PartialEq, Eq, Structural)]
pub enum Arity {
    NoArgs,
    Req(u32),
    ReqAndOpt(u32, u32),
    Rest,
}

/// Whether a method is called on instances or on the class.
#[derive(Debug, Clone, Copy, PartialEq, Eq, Structural)]
pub enum Receiver {
    Instance,
    Class,
}

/// The function of this library that a Ruby method calls.
#[derive(Debug, Clone, Copy, PartialEq, Eq, Structural)]
pub enum Handler {
    /// `Regexp#initialize`: `Regexp::initialize`
    Initialize,
    /// `Regexp.compile`: `Regexp::compile`
    Compile,
    /// `Regexp.escape`: `Regexp::escape`
    Escape,
    /// `Regexp.union`: `Regexp::union`
    Union,
    /// `Regexp#match?`: `Regexp::is_match`
    IsMatch,
    /// `Regexp#match`: `Regexp::match_`
    Match,
    /// `Regexp#=~`: `Regexp::equal_squiggle`
    EqualSquiggle,
    /// `Regexp#==`: `Regexp::equal_equal`
    EqualEqual,
    /// `Regexp#===`: `Regexp::equal_equal_equal`
    EqualEqualEqual,
    /// `Regexp#names`: `Regexp::names`
    Names,
    /// `Regexp#named_captures`: `Regexp::named_captures`
    NamedCaptures,
    /// `Regexp#options`: `Regexp::options`
    Options,
    /// `Regexp#to_s`: `Regexp::to_s`
    ToS,
    /// `Regexp#inspect`: `Regexp::inspect`
    Inspect,
    /// `MatchData#string`: `MatchData::string`
    MatchString,
    /// `MatchData#regexp`: `MatchData::regexp`
    MatchRegexp,
    /// `MatchData#[]`: `MatchData::idx`
    MatchIdx,
    /// `MatchData#begin`: `MatchData::begin`
    MatchBegin,
    /// `MatchData#end`: `MatchData::end`
    MatchEnd,
    /// `MatchData#length` and `size`: `MatchData::length`
    MatchLength,
    /// `MatchData#captures`: `MatchData::captures`
    MatchCaptures,
    /// `MatchData#named_captures`: `MatchData::named_captures`
    MatchNamedCaptures,
    /// `MatchData#pre_match`: `MatchData::pre_match`
    MatchPreMatch,
    /// `MatchData#post_match`: `MatchData::post_match`
    MatchPostMatch,
    /// `MatchData#to_a`: `MatchData::to_a`
    MatchToA,
    /// `MatchData#to_s`: `MatchData::to_s`
    MatchToS,
}

/// One method that a class defines.
pub struct MethodDef {
    pub name: &'static str,
    pub receiver: Receiver,
    pub arity: Arity,
    pub handler: Handler,
}

/// What `init` defines in the interpreter: the classes `Regexp` (with its
/// methods and its constants) and `MatchData` (with its methods).
pub struct Definitions {
    pub regexp_class: &'static str,
    pub match_data_class: &'static str,
    pub regexp_methods: Vec<MethodDef>,
    pub regexp_constants: Vec<(&'static str, i64)>,
    pub match_data_methods: Vec<MethodDef>,
}

/// The view of a method definition.
pub open spec fn method_view(d: MethodDef) -> (Seq<char>, Receiver, Arity, Handler) {
    (d.name@, d.receiver, d.arity, d.handler)
}

/// The methods of `Regexp`, in the order they are defined.
pub open spec fn regexp_method_table() -> Seq<(Seq<char>, Receiver, Arity, Handler)> {
    seq![
        ("initialize"@, Receiver::Instance, Arity::ReqAndOpt(1, 2), Handler::Initialize),
        ("compile"@, Receiver::Class, Arity::Rest, Handler::Compile),
        ("escape"@, Receiver::Class, Arity::Req(1), Handler::Escape),
        ("union"@, Receiver::Class, Arity::Rest, Handler::Union),
        ("match?"@, Receiver::Instance, Arity::ReqAndOpt(1, 1), Handler::IsMatch),
        ("match"@, Receiver::Instance, Arity::ReqAndOpt(1, 1), Handler::Match),
        ("=~"@, Receiver::Instance, Arity::Req(1), Handler::EqualSquiggle),
        ("=="@, Receiver::Instance, Arity::Req(1), Handler::EqualEqual),
        ("==="@, Receiver::Instance, Arity::Req(1), Handler::EqualEqualEqual),
        ("names"@, Receiver::Instance, Arity::NoArgs, Handler::Names),
        ("named_captures"@, Receiver::Instance, Arity::NoArgs, Handler::NamedCaptures),
        ("options"@, Receiver::Instance, Arity::NoArgs, Handler::Options),
        ("to_s"@, Receiver::Instance, Arity::NoArgs, Handler::ToS),
        ("inspect"@, Receiver::Instance, Arity::NoArgs, Handler::Inspect),
    ]
}

/// The methods of `MatchData`, in the order they are defined.
pub open spec fn match_data_method_table() -> Seq<(Seq<char>, Receiver, Arity, Handler)> {
    seq![
        ("string"@, Receiver::Instance, Arity::NoArgs, Handler::MatchString),
        ("regexp"@, Receiver::Instance, Arity::NoArgs, Handler::MatchRegexp),
        ("[]"@, Receiver::Instance, Arity::NoArgs, Handler::MatchIdx),
        ("begin"@, Receiver::Instance, Arity::Req(1), Handler::MatchBegin),
        ("end"@, Receiver::Instance, Arity::Req(1), Handler::MatchEnd),
        ("length"@, Receiver::Instance, Arity::NoArgs, Handler::MatchLength),
        ("size"@, Receiver::Instance, Arity::NoArgs, Handler::MatchLength),
        ("captures"@, Receiver::Instance, Arity::NoArgs, Handler::MatchCaptures),
        ("named_captures"@, Receiver::Instance, Arity::NoArgs, Handler::MatchNamedCaptures),
        ("pre_match"@, Receiver::Instance, Arity::NoArgs, Handler::MatchPreMatch),
        ("post_match"@, Receiver::Instance, Arity::NoArgs, Handler::MatchPostMatch),
        ("to_a"@, Receiver::Instance, Arity::NoArgs, Handler::MatchToA),
        ("to_s"@, Receiver::Instance, Arity::NoArgs, Handler::MatchToS),
    ]
}

/// The constants of `Regexp`.
pub open spec fn regexp_constant_table() -> Seq<(Seq<char>, i64)> {
    seq![("IGNORECASE"@, 1i64), ("EXTENDED"@, 2i64), ("MULTILINE"@, 4i64)]
}

/// The classes, methods and constants that the interpreter is to define
/// for regexps.
pub fn init() -> (defs: Definitions)
    ensures
        defs.regexp_class@ == "Regexp"@,
        defs.match_data_class@ == "MatchData"@,
        defs.regexp_methods@.map_values(|d: MethodDef| method_view(d)) == regexp_method_table(),
        defs.match_data_methods@.map_values(|d: MethodDef| method_view(d)) == match_data_method_table(),
        defs.regexp_constants@.map_values(|c: (&'static str, i64)| (c.0@, c.1)) == regexp_constant_table(),
{
    let mut regexp_methods: Vec<MethodDef> = Vec::new();
    regexp_methods.push(MethodDef { name: "initialize", receiver: Receiver::Instance, arity: Arity::ReqAndOpt(1, 2), handler: Handler::Initialize });
    regexp_methods.push(MethodDef { name: "compile", receiver: Receiver::Class, arity: Arity::Rest, handler: Handler::Compile });
    regexp_methods.push(MethodDef { name: "escape", receiver: Receiver::Class, arity: Arity::Req(1), handler: Handler::Escape });
    regexp_methods.push(MethodDef { name: "union", receiver: Receiver::Class, arity: Arity::Rest, handler: Handler::Union });
    regexp_methods.push(MethodDef { name: "match?", receiver: Receiver::Instance, arity: Arity::ReqAndOpt(1, 1), handler: Handler::IsMatch });
    regexp_methods.push(MethodDef { name: "match", receiver: Receiver::Instance, arity: Arity::ReqAndOpt(1, 1), handler: Handler::Match });
    regexp_methods.push(MethodDef { name: "=~", receiver: Receiver::Instance, arity: Arity::Req(1), handler: Handler::EqualSquiggle });
    regexp_methods.push(MethodDef { name: "==", receiver: Receiver::Instance, arity: Arity::Req(1), handler: Handler::EqualEqual });
    regexp_methods.push(MethodDef { name: "===", receiver: Receiver::Instance, arity: Arity::Req(1), handler: Handler::EqualEqualEqual });
    regexp_methods.push(MethodDef { name: "names", receiver: Receiver::Instance, arity: Arity::NoArgs, handler: Handler::Names });
    regexp_methods.push(MethodDef { name: "named_captures", receiver: Receiver::Instance, arity: Arity::NoArgs, handler: Handler::NamedCaptures });
    regexp_methods.push(MethodDef { name: "options", receiver: Receiver::Instance, arity: Arity::NoArgs, handler: Handler::Options });
    regexp_methods.push(MethodDef { name: "to_s", receiver: Receiver::Instance, arity: Arity::NoArgs, handler: Handler::ToS });
    regexp_methods.push(MethodDef { name: "inspect", receiver: Receiver::Instance, arity: Arity::NoArgs, handler: Handler::Inspect });
    let mut match_data_methods: Vec<MethodDef> = Vec::new();
    match_data_methods.push(MethodDef { name: "string", receiver: Receiver::Instance, arity: Arity::NoArgs, handler: Handler::MatchString });
    match_data_methods.push(MethodDef { name: "regexp", receiver: Receiver::Instance, arity: Arity::NoArgs, handler: Handler::MatchRegexp });
    match_data_methods.push(MethodDef { name: "[]", receiver: Receiver::Instance, arity: Arity::NoArgs, handler: Handler::MatchIdx });
    match_data_methods.push(MethodDef { name: "begin", receiver: Receiver::Instance, arity: Arity::Req(1), handler: Handler::MatchBegin });
    match_data_methods.push(MethodDef { name: "end", receiver: Receiver::Instance, arity: Arity::Req(1), handler: Handler::MatchEnd });
    match_data_methods.push(MethodDef { name: "length", receiver: Receiver::Instance, arity: Arity::NoArgs, handler: Handler::MatchLength });
    match_data_methods.push(MethodDef { name: "size", receiver: Receiver::Instance, arity: Arity::NoArgs, handler: Handler::MatchLength });
    match_data_methods.push(MethodDef { name: "captures", receiver: Receiver::Instance, arity: Arity::NoArgs, handler: Handler::MatchCaptures });
    match_data_methods.push(MethodDef { name: "named_captures", receiver: Receiver::Instance, arity: Arity::NoArgs, handler: Handler::MatchNamedCaptures });
    match_data_methods.push(MethodDef { name: "pre_match", receiver: Receiver::Instance, arity: Arity::NoArgs, handler: Handler::MatchPreMatch });
    match_data_methods.push(MethodDef { name: "post_match", receiver: Receiver::Instance, arity: Arity::NoArgs, handler: Handler::MatchPostMatch });
    match_data_methods.push(MethodDef { name: "to_a", receiver: Receiver::Instance, arity: Arity::NoArgs, handler: Handler::MatchToA });
    match_data_methods.push(MethodDef { name: "to_s", receiver: Receiver::Instance, arity: Arity::NoArgs, handler: Handler::MatchToS });
    let mut regexp_constants: Vec<(&'static str, i64)> = Vec::new();
    regexp_constants.push(("IGNORECASE", crate::options::IGNORECASE));
    regexp_constants.push(("EXTENDED", crate::options::EXTENDED));
    regexp_constants.push(("MULTILINE", crate::options::MULTILINE));
    assert(regexp_methods@.map_values(|d: MethodDef| method_view(d)) =~= regexp_method_table());
    assert(match_data_methods@.map_values(|d: MethodDef| method_view(d)) =~= match_data_method_table());
    assert(regexp_constants@.map_values(|c: (&'static str, i64)| (c.0@, c.1)) =~= regexp_constant_table());
    Definitions {
        regexp_class: "Regexp",
        match_data_class: "MatchData",
        regexp_methods,
        regexp_constants,
        match_data_methods,
    }
}

} // verus!
