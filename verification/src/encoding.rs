use vstd::prelude::*;

use crate::error::RegexpError;
use crate::options::{ALL_REGEXP_OPTS, FIXEDENCODING, NOENCODING};
use crate::value::Value;

verus! {

/// The encoding of a Ruby regexp: fixed (`u`, UTF-8) or none (`n`).
#[derive(Debug, Clone, Copy, PartialEq, Eq, Structural)]
pub enum Encoding {
    Fixed,
    NoEncoding,
}

/// The integer flag of `e`.
pub open spec fn encoding_bits(e: Encoding) -> i64 {
    match e {
        Encoding::Fixed => FIXEDENCODING,
        Encoding::NoEncoding => NOENCODING,
    }
}

/// Whether `c` names an encoding.
pub open spec fn is_encoding_letter(c: char) -> bool {
    c == 'u' || c == 'n'
}

/// Whether `c` may stand in an encoding string: an encoding letter, or,
/// where the string is the options argument, an option letter.
pub open spec fn allowed_letter(c: char, from_options: bool) -> bool {
    is_encoding_letter(c) || (from_options && (c == 'i' || c == 'm' || c == 'x'))
}

/// The number of encoding letters in `s`.
pub open spec fn count_encoding_letters(s: Seq<char>) -> nat
    decreases s.len(),
{
    if s.len() == 0 {
        0
    } else {
        count_encoding_letters(s.drop_last()) + if is_encoding_letter(s.last()) {
            1nat
        } else {
            0nat
        }
    }
}

/// The encoding that a string of flag letters names: refused if it holds a
/// letter that is not allowed or more than one encoding letter; fixed if it
/// holds `u`; none otherwise.
pub open spec fn encoding_from_letters(s: Seq<char>, from_options: bool) -> Result<
    Encoding,
    RegexpError,
> {
    if (exists|i: int| 0 <= i < s.len() && !allowed_letter(#[trigger] s[i], from_options))
        || count_encoding_letters(s) > 1 {
        Err(RegexpError::InvalidEncoding)
    } else if s.contains('u') {
        Ok(Encoding::Fixed)
    } else {
        Ok(Encoding::NoEncoding)
    }
}

/// The encoding that a Ruby value names, given as the encoding argument of
/// `Regexp.new` or (`from_options`) as its options argument. Integer flags
/// name an encoding by their bits outside the option bits (16 fixed, 32
/// none, 0 the default none); a string by its letters; any other value
/// names the default.
pub open spec fn encoding_from_value_spec(v: &Value, from_options: bool) -> Result<
    Encoding,
    RegexpError,
> {
    match v {
        Value::Fixnum(n) => {
            let e = *n & !ALL_REGEXP_OPTS;
            if e == FIXEDENCODING {
                Ok(Encoding::Fixed)
            } else if e == NOENCODING || e == 0 {
                Ok(Encoding::NoEncoding)
            } else {
                Err(RegexpError::InvalidEncoding)
            }
        },
        Value::Str(s) => encoding_from_letters(s@, from_options),
        _ => Ok(Encoding::NoEncoding),
    }
}

impl Encoding {
    /// The integer flag of this encoding.
    pub fn flags(self) -> (bits: i64)
        ensures
            bits == encoding_bits(self),
    {
        match self {
            Encoding::Fixed => FIXEDENCODING,
            Encoding::NoEncoding => NOENCODING,
        }
    }

    /// The encoding that a Ruby value names.
    pub fn from_value(value: &Value, from_options: bool) -> (res: Result<Self, RegexpError>)
        ensures
            res == encoding_from_value_spec(value, from_options),
    {
        match value {
            Value::Fixnum(n) => {
                let encoding = *n & !ALL_REGEXP_OPTS;
                if encoding == FIXEDENCODING {
                    Ok(Encoding::Fixed)
                } else if encoding == NOENCODING {
                    Ok(Encoding::NoEncoding)
                } else if encoding == 0 {
                    Ok(Self::default())
                } else {
                    Err(RegexpError::InvalidEncoding)
                }
            },
            Value::Str(s) => Self::from_letters(s.as_str(), from_options),
            _ => Ok(Self::default()),
        }
    }

    pub(crate) fn from_letters(s: &str, from_options: bool) -> (res: Result<Self, RegexpError>)
        ensures
            res == encoding_from_letters(s@, from_options),
    {
        let ghost t = s@;
        let mut count: usize = 0;
        let mut saw_fixed = false;
        for c in it: s.chars()
            invariant
                it.seq() == t,
                t == s@,
                count as int == if count_encoding_letters(t.take(it.index())) > 1 {
                    2
                } else {
                    count_encoding_letters(t.take(it.index())) as int
                },
                saw_fixed == t.take(it.index()).contains('u'),
                forall|j: int| 0 <= j < it.index() ==> allowed_letter(#[trigger] t[j], from_options),
        {
            let ghost i = it.index();
            assert(t.take(i + 1).drop_last() =~= t.take(i));
            assert(t.take(i + 1).last() == c);
            assert(t.take(i + 1).contains('u') == (t.take(i).contains('u') || c == 'u')) by {
                if c == 'u' {
                    assert(t.take(i + 1)[i] == 'u');
                }
                if t.take(i).contains('u') {
                    let k = choose|k: int| 0 <= k < i && #[trigger] t.take(i)[k] == 'u';
                    assert(t.take(i + 1)[k] == 'u');
                }
                if t.take(i + 1).contains('u') && c != 'u' {
                    let k = choose|k: int| 0 <= k < i + 1 && #[trigger] t.take(i + 1)[k] == 'u';
                    assert(t.take(i)[k] == 'u');
                }
            }
            if c == 'u' {
                if count < 2 {
                    count = count + 1;
                }
                saw_fixed = true;
            } else if c == 'n' {
                if count < 2 {
                    count = count + 1;
                }
            } else if from_options && (c == 'i' || c == 'm' || c == 'x') {
            } else {
                assert(!allowed_letter(t[i], from_options));
                return Err(RegexpError::InvalidEncoding);
            }
        }
        assert(t.take(t.len() as int) =~= t);
        if count > 1 {
            return Err(RegexpError::InvalidEncoding);
        }
        if saw_fixed {
            Ok(Encoding::Fixed)
        } else {
            Ok(Encoding::NoEncoding)
        }
    }
}

impl Default for Encoding {
    fn default() -> (e: Self)
        ensures
            e == Encoding::NoEncoding,
    {
        Encoding::NoEncoding
    }
}

} // verus!
