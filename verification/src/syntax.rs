//! Quoting of text for use as a literal pattern (`Regexp.escape`).

use vstd::prelude::*;

use crate::text::push_char;

verus! {

/// Whether `c` has a meaning of its own in a Ruby pattern.
pub open spec fn is_meta(c: char) -> bool {
    c == '[' || c == ']' || c == '{' || c == '}' || c == '(' || c == ')' || c == '|' || c == '-'
        || c == '*' || c == '.' || c == '\\' || c == '?' || c == '+' || c == '^' || c == '$'
        || c == '#'
}

/// How `c` is written in a quoted pattern: a metacharacter or a space behind
/// a backslash, a newline, tab, carriage return, form feed or vertical tab
/// as its backslash escape, any other character as itself.
pub open spec fn escape_char(c: char) -> Seq<char> {
    if c == '\n' {
        seq!['\\', 'n']
    } else if c == '\t' {
        seq!['\\', 't']
    } else if c == '\r' {
        seq!['\\', 'r']
    } else if c == '\x0c' {
        seq!['\\', 'f']
    } else if c == '\x0b' {
        seq!['\\', 'v']
    } else if c == ' ' || is_meta(c) {
        seq!['\\', c]
    } else {
        seq![c]
    }
}

/// The quoted form of `s`: each character written as `escape_char` says.
pub open spec fn escape_spec(s: Seq<char>) -> Seq<char>
    decreases s.len(),
{
    if s.len() == 0 {
        Seq::empty()
    } else {
        escape_char(s[0]) + escape_spec(s.drop_first())
    }
}

/// The character that the escape `\c` stands for in a quoted pattern.
pub open spec fn unescape_char(c: char) -> char {
    if c == 'n' {
        '\n'
    } else if c == 't' {
        '\t'
    } else if c == 'r' {
        '\r'
    } else if c == 'f' {
        '\x0c'
    } else if c == 'v' {
        '\x0b'
    } else {
        c
    }
}

/// Reads a quoted pattern back: a backslash and the character after it
/// stand for `unescape_char` of that character; any other character for
/// itself.
pub open spec fn unescape_spec(s: Seq<char>) -> Seq<char>
    decreases s.len(),
{
    if s.len() == 0 {
        Seq::empty()
    } else if s[0] == '\\' && s.len() >= 2 {
        seq![unescape_char(s[1])] + unescape_spec(s.skip(2))
    } else {
        seq![s[0]] + unescape_spec(s.drop_first())
    }
}

proof fn lemma_escape_push(s: Seq<char>, c: char)
    ensures
        escape_spec(s.push(c)) == escape_spec(s) + escape_char(c),
    decreases s.len(),
{
    if s.len() == 0 {
        let e = Seq::<char>::empty();
        assert(s.push(c).drop_first() =~= e);
        assert(escape_spec(e) =~= e);
        assert(s.push(c)[0] == c);
        assert(s =~= e);
        assert(escape_spec(s.push(c)) =~= escape_char(c) + e);
    } else {
        assert(s.push(c).drop_first() =~= s.drop_first().push(c));
        lemma_escape_push(s.drop_first(), c);
        assert(escape_spec(s.push(c)) =~= escape_spec(s) + escape_char(c));
    }
}

/// Quoting loses nothing: reading the quoted form of `s` back gives `s`.
pub proof fn lemma_unescape_escape(s: Seq<char>)
    ensures
        unescape_spec(escape_spec(s)) == s,
    decreases s.len(),
{
    if s.len() > 0 {
        let c = s[0];
        let rest = escape_spec(s.drop_first());
        let q = escape_char(c) + rest;
        lemma_unescape_escape(s.drop_first());
        if escape_char(c).len() == 2 {
            assert(q.skip(2) =~= rest);
            assert(q[0] == '\\');
            assert(unescape_char(q[1]) == c);
        } else {
            assert(q.drop_first() =~= rest);
            assert(q[0] == c && c != '\\');
        }
        assert(unescape_spec(q) =~= s);
    } else {
        assert(unescape_spec(escape_spec(s)) =~= s);
    }
}

/// Quotes `text` so that, as a pattern, it stands for itself.
pub fn escape(text: &str) -> (quoted: String)
    ensures
        quoted@ == escape_spec(text@),
{
    let mut quoted = String::new();
    for c in it: text.chars()
        invariant
            it.seq() == text@,
            quoted@ == escape_spec(text@.take(it.index())),
    {
        let ghost i = it.index();
        proof {
            assert(text@.take(i + 1) =~= text@.take(i).push(c));
            lemma_escape_push(text@.take(i), c);
        }
        if c == '\n' {
            push_char(&mut quoted, '\\');
            push_char(&mut quoted, 'n');
        } else if c == '\t' {
            push_char(&mut quoted, '\\');
            push_char(&mut quoted, 't');
        } else if c == '\r' {
            push_char(&mut quoted, '\\');
            push_char(&mut quoted, 'r');
        } else if c == '\x0c' {
            push_char(&mut quoted, '\\');
            push_char(&mut quoted, 'f');
        } else if c == '\x0b' {
            push_char(&mut quoted, '\\');
            push_char(&mut quoted, 'v');
        } else if c == ' ' || c == '[' || c == ']' || c == '{' || c == '}' || c == '(' || c == ')'
            || c == '|' || c == '-' || c == '*' || c == '.' || c == '\\' || c == '?' || c == '+'
            || c == '^' || c == '$' || c == '#' {
            push_char(&mut quoted, '\\');
            push_char(&mut quoted, c);
        } else {
            push_char(&mut quoted, c);
        }
        assert(quoted@ =~= escape_spec(text@.take(i + 1)));
    }
    assert(text@.take(text@.len() as int) =~= text@);
    quoted
}

} // verus!
