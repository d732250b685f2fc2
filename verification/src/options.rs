use vstd::prelude::*;

use crate::error::RegexpError;
use crate::text::contains_char;
use crate::value::Value;

verus! {

/// The regexp options that Ruby knows: `i` (ignore case), `x` (extended)
/// and `m` (multiline, which lets `.` match a newline).
#[derive(Debug, Clone, Copy, PartialEq, Eq, Structural)]
pub struct Options {
    pub ignore_case: bool,
    pub extended: bool,
    pub multiline: bool,
}

/// `Regexp::IGNORECASE`
pub const IGNORECASE: i64 = 1;

/// `Regexp::EXTENDED`
pub const EXTENDED: i64 = 2;

/// `Regexp::MULTILINE`
pub const MULTILINE: i64 = 4;

/// All option bits that Ruby knows (mruby has no `o` flag).
pub const ALL_REGEXP_OPTS: i64 = 7;

/// `Regexp::FIXEDENCODING`
pub const FIXEDENCODING: i64 = 16;

/// `Regexp::NOENCODING`
pub const NOENCODING: i64 = 32;

/// All encoding bits.
pub const ALL_ENCODING_OPTS: i64 = 48;

/// The options that integer flags `n` set: each option whose bit is in `n`.
pub open spec fn options_of_bits(n: i64) -> Options {
    Options {
        ignore_case: n & IGNORECASE != 0,
        extended: n & EXTENDED != 0,
        multiline: n & MULTILINE != 0,
    }
}

/// Whether integer flags `n` hold no bit but the option and encoding bits.
pub open spec fn valid_option_bits(n: i64) -> bool {
    n & !(ALL_REGEXP_OPTS | ALL_ENCODING_OPTS) == 0
}

/// The options with only `ignore_case` set.
pub open spec fn ignore_case_only() -> Options {
    Options { ignore_case: true, extended: false, multiline: false }
}

/// The options that a Ruby value given as the options argument of
/// `Regexp.new` sets: integer flags set their bits (and are refused with a
/// bit that is neither an option nor an encoding); a string sets the options
/// whose letters it holds; `nil` and `false` set none; any other value sets
/// `ignore_case`.
pub open spec fn options_from_value_spec(v: &Value) -> Result<Options, RegexpError> {
    match v {
        Value::Fixnum(n) => if valid_option_bits(*n) {
            Ok(options_of_bits(*n))
        } else {
            Err(RegexpError::InvalidFlags)
        },
        Value::Nil => Ok(no_options()),
        Value::Bool(b) => if *b {
            Ok(ignore_case_only())
        } else {
            Ok(no_options())
        },
        Value::Str(s) => Ok(
            Options {
                ignore_case: s@.contains('i'),
                extended: s@.contains('x'),
                multiline: s@.contains('m'),
            },
        ),
        _ => Ok(ignore_case_only()),
    }
}

/// The options with no flag set.
pub open spec fn no_options() -> Options {
    Options { ignore_case: false, extended: false, multiline: false }
}

/// The option bits of `o`, with the Ruby constants (which the engine's
/// option bits equal).
pub open spec fn flag_bits(o: Options) -> u32 {
    ((if o.ignore_case { 1u32 } else { 0u32 }) + (if o.extended { 2u32 } else { 0u32 }) + (
    if o.multiline {
        4u32
    } else {
        0u32
    })) as u32
}

/// One letter if `on`, nothing otherwise.
pub open spec fn letter_if(on: bool, c: char) -> Seq<char> {
    if on {
        seq![c]
    } else {
        Seq::empty()
    }
}

/// The letters that a Ruby regexp literal carries after its closing `/`:
/// `i`, then `m`, then `x`.
pub open spec fn literal_letters(o: Options) -> Seq<char> {
    letter_if(o.ignore_case, 'i') + letter_if(o.multiline, 'm') + letter_if(o.extended, 'x')
}

/// The option group body of an Oniguruma pattern: the flags that are on,
/// a `-`, then the flags that are off, each group in the order `m`, `i`, `x`.
pub open spec fn onig_letters(o: Options) -> Seq<char> {
    letter_if(o.multiline, 'm') + letter_if(o.ignore_case, 'i') + letter_if(o.extended, 'x')
        + seq!['-'] + letter_if(!o.multiline, 'm') + letter_if(!o.ignore_case, 'i')
        + letter_if(!o.extended, 'x')
}

/// Sets one flag: to `true`, or, after a `-` in the group, to its negation.
pub open spec fn toggled(current: bool, negate: bool) -> bool {
    if negate {
        !current
    } else {
        true
    }
}

/// The options after reading the flag letters of an inline option group
/// `s` (what follows `(?`), up to its `)` or `:`. A `-` turns the letters
/// after it into toggles; other characters are skipped.
pub open spec fn scan_group(s: Seq<char>, o: Options, negate: bool) -> Options
    decreases s.len(),
{
    if s.len() == 0 {
        o
    } else {
        let c = s[0];
        let rest = s.drop_first();
        if c == '-' {
            scan_group(rest, o, true)
        } else if c == 'i' {
            scan_group(rest, Options { ignore_case: toggled(o.ignore_case, negate), ..o }, negate)
        } else if c == 'm' {
            scan_group(rest, Options { multiline: toggled(o.multiline, negate), ..o }, negate)
        } else if c == 'x' {
            scan_group(rest, Options { extended: toggled(o.extended, negate), ..o }, negate)
        } else if c == ')' || c == ':' {
            o
        } else {
            scan_group(rest, o, negate)
        }
    }
}

/// Whether `p` opens with an inline option group `(?`.
pub open spec fn opens_group(p: Seq<char>) -> bool {
    p.len() >= 2 && p[0] == '(' && p[1] == '?'
}

/// What the engine compiles for a Ruby pattern `p` with options `o`, and
/// the options it then has. A pattern that opens with `(?` is kept as it
/// is and its leading group is read; any other pattern is wrapped in a
/// group that sets `o` (an empty pattern becomes the bare group).
pub open spec fn from_pattern_spec(p: Seq<char>, o: Options) -> (Seq<char>, Options) {
    if p.len() == 0 {
        (seq!['(', '?'] + onig_letters(o) + seq![')'], o)
    } else if !opens_group(p) {
        (seq!['(', '?'] + onig_letters(o) + seq![':'] + p + seq![')'], o)
    } else {
        (p, scan_group(p.skip(2), o, false))
    }
}

fn push_letter_if(buf: &mut String, on: bool, c: &str)
    requires
        c@.len() == 1,
    ensures
        final(buf)@ == old(buf)@ + letter_if(on, c@[0]),
{
    if on {
        buf.append(c);
        assert(c@ =~= seq![c@[0]]);
    } else {
        assert(old(buf)@ + letter_if(on, c@[0]) =~= old(buf)@);
    }
}

impl Options {
    /// The options with only `ignore_case` set.
    pub fn ignore_case() -> (opts: Self)
        ensures
            opts == (Options { ignore_case: true, extended: false, multiline: false }),
    {
        let mut opts = Self::default();
        opts.ignore_case = true;
        opts
    }

    /// Reads the options of a Ruby pattern as the engine will see it: a
    /// pattern that opens with `(?` keeps its own leading option group, and
    /// the options that group sets are returned; any other pattern is
    /// wrapped in a group that sets `opts`.
    pub fn from_pattern(pattern: &str, opts: Self) -> (res: (String, Self))
        ensures
            res.0@ == from_pattern_spec(pattern@, opts).0,
            res.1 == from_pattern_spec(pattern@, opts).1,
    {
        proof {
            reveal_strlit("(?");
            reveal_strlit(")");
            reveal_strlit(":");
        }
        let n = pattern.unicode_len();
        if n < 2 || pattern.get_char(0) != '(' || pattern.get_char(1) != '?' {
            let mut pat_buf = String::new();
            pat_buf.append("(?");
            let onig = opts.as_onig_string();
            pat_buf.append(onig.as_str());
            if n == 0 {
                pat_buf.append(")");
            } else {
                pat_buf.append(":");
                pat_buf.append(pattern);
                pat_buf.append(")");
            }
            return (pat_buf, opts);
        }
        let ghost p = pattern@;
        let ghost start = opts;
        let mut opts = opts;
        let mut negate = false;
        let mut done = false;
        let mut seen: usize = 0;
        for c in it: pattern.chars()
            invariant
                seen as int == if it.index() < 2 {
                    it.index() as int
                } else {
                    2
                },
                it.seq() == p,
                p == pattern@,
                opens_group(p),
                done ==> scan_group(p.skip(2), start, false) == opts,
                !done && it.index() >= 2 ==> scan_group(p.skip(2), start, false) == scan_group(
                    p.skip(it.index() as int),
                    opts,
                    negate,
                ),
                !done && it.index() < 2 ==> opts == start && !negate,
        {
            let ghost i = it.index();
            if seen < 2 {
                seen = seen + 1;
            } else if !done {
                let ghost rest = p.skip(i as int);
                assert(rest[0] == c);
                assert(rest.drop_first() =~= p.skip(i + 1));
                if c == ')' || c == ':' {
                    done = true;
                } else if c == '-' {
                    negate = true;
                } else if c == 'i' {
                    opts.ignore_case = if negate { !opts.ignore_case } else { true };
                } else if c == 'm' {
                    opts.multiline = if negate { !opts.multiline } else { true };
                } else if c == 'x' {
                    opts.extended = if negate { !opts.extended } else { true };
                }
            }
        }
        proof {
            if !done {
                assert(p.skip(p.len() as int) =~= Seq::<char>::empty());
            }
        }
        (pattern.to_owned(), opts)
    }

    /// The options that a Ruby value given as the options argument of
    /// `Regexp.new` sets.
    pub fn from_value(value: &Value) -> (res: Result<Self, RegexpError>)
        ensures
            res == options_from_value_spec(value),
    {
        match value {
            Value::Fixnum(n) => {
                let n = *n;
                let options = n & !ALL_ENCODING_OPTS;
                assert((7i64 | 48i64) == 55i64) by (bit_vector);
                assert(options & ALL_REGEXP_OPTS == options <==> n & !55i64 == 0) by (bit_vector)
                    requires
                        options == n & !48i64,
                ;
                if options & ALL_REGEXP_OPTS != options {
                    return Err(RegexpError::InvalidFlags);
                }
                assert(((options & 1) > 0) == (n & 1 != 0) && ((options & 2) > 0) == (n & 2 != 0)
                    && ((options & 4) > 0) == (n & 4 != 0)) by (bit_vector)
                    requires
                        options == n & !48i64,
                ;
                Ok(
                    Options {
                        ignore_case: options & IGNORECASE > 0,
                        extended: options & EXTENDED > 0,
                        multiline: options & MULTILINE > 0,
                    },
                )
            },
            Value::Nil => Ok(Self::default()),
            Value::Bool(b) => {
                if *b {
                    Ok(Self::ignore_case())
                } else {
                    Ok(Self::default())
                }
            },
            Value::Str(s) => {
                let mut opts = Self::default();
                opts.ignore_case = contains_char(s.as_str(), 'i');
                opts.multiline = contains_char(s.as_str(), 'm');
                opts.extended = contains_char(s.as_str(), 'x');
                Ok(opts)
            },
            _ => Ok(Self::ignore_case()),
        }
    }

    /// The option bits that the engine is handed.
    pub fn flags(self) -> (bits: u32)
        ensures
            bits == flag_bits(self),
            bits < 8,
    {
        let mut bits: u32 = 0;
        if self.ignore_case {
            bits = bits + 1;
        }
        if self.extended {
            bits = bits + 2;
        }
        if self.multiline {
            bits = bits + 4;
        }
        bits
    }

    /// The flags as written after a regexp literal, as `inspect` shows them.
    pub fn as_literal_string(self) -> (s: String)
        ensures
            s@ == literal_letters(self),
    {
        proof {
            reveal_strlit("i");
            reveal_strlit("m");
            reveal_strlit("x");
        }
        let mut buf = String::new();
        push_letter_if(&mut buf, self.ignore_case, "i");
        push_letter_if(&mut buf, self.multiline, "m");
        push_letter_if(&mut buf, self.extended, "x");
        buf
    }

    /// The flags as an Oniguruma option group body, such as `mi-x`.
    pub fn as_onig_string(self) -> (s: String)
        ensures
            s@ == onig_letters(self),
    {
        proof {
            reveal_strlit("i");
            reveal_strlit("m");
            reveal_strlit("x");
            reveal_strlit("-");
        }
        let mut pos = String::new();
        let mut neg = String::new();
        push_letter_if(&mut pos, self.multiline, "m");
        push_letter_if(&mut neg, !self.multiline, "m");
        push_letter_if(&mut pos, self.ignore_case, "i");
        push_letter_if(&mut neg, !self.ignore_case, "i");
        push_letter_if(&mut pos, self.extended, "x");
        push_letter_if(&mut neg, !self.extended, "x");
        let mut buf = String::new();
        buf.append(pos.as_str());
        buf.append("-");
        buf.append(neg.as_str());
        assert(buf@ =~= onig_letters(self));
        buf
    }
}

impl Default for Options {
    fn default() -> (opts: Self)
        ensures
            opts == no_options(),
    {
        Options { ignore_case: false, extended: false, multiline: false }
    }
}

} // verus!
