//! What holds across the functions of this library.

use vstd::prelude::*;
use vstd::utf8::*;

use crate::encoding::{Encoding, encoding_bits, encoding_from_value_spec};
use crate::options::{Options, flag_bits, literal_letters, options_from_value_spec};
use crate::match_data::{
    IndexedView,
    MatchDataView,
    MatchIndex,
    around_match_spec,
    at_index_spec,
    extract_spec,
    group_at,
    groups_of,
    idx_spec,
    index_in_range,
    length_spec,
    first_name,
    name_group,
    named_texts,
    names_distinct_view,
    names_of,
    offset_of_group,
    offset_spec,
    range_spec,
    resolve_index,
    texts_from,
    valid_match,
};
use crate::options::{from_pattern_spec, no_options, opens_group};
use crate::regexp::{
    MatchOutcome,
    RegexpView,
    build_spec,
    is_match_spec,
    match_spec,
    new_args_spec,
    squiggle_spec,
    union_source,
    union_sources,
};
use crate::syntax::{escape_char, escape_spec, lemma_unescape_escape, unescape_spec};
use crate::text::byte_slice_spec;
use crate::value::Value;

verus! {

proof fn lemma_bits_of_options(o: Options)
    ensures
        flag_bits(o) < 8,
        (flag_bits(o) as i64) & 1 != 0 <==> o.ignore_case,
        (flag_bits(o) as i64) & 2 != 0 <==> o.extended,
        (flag_bits(o) as i64) & 4 != 0 <==> o.multiline,
{
    let a: i64 = if o.ignore_case { 1 } else { 0 };
    let b: i64 = if o.extended { 2 } else { 0 };
    let c: i64 = if o.multiline { 4 } else { 0 };
    let n = flag_bits(o) as i64;
    assert(n == a + b + c);
    assert((n & 1 != 0 <==> a == 1) && (n & 2 != 0 <==> b == 2) && (n & 4 != 0 <==> c == 4))
        by (bit_vector)
        requires
            a == 0 || a == 1,
            b == 0 || b == 2,
            c == 0 || c == 4,
            n == a + b + c,
    ;
}

/// The option bits of a regexp (`Regexp#options`), handed back to
/// `Regexp.new`, set the same options.
pub proof fn law_option_bits_roundtrip(o: Options)
    ensures
        options_from_value_spec(&Value::Fixnum(flag_bits(o) as i64)) == Ok::<Options, crate::error::RegexpError>(o),
{
    lemma_bits_of_options(o);
    let n = flag_bits(o) as i64;
    assert(0 <= n < 8 ==> n & !55i64 == 0) by (bit_vector);
    assert((7i64 | 48i64) == 55i64) by (bit_vector);
}

/// The option letters that `Regexp#inspect` prints, handed back to
/// `Regexp.new` as its options, set the same options.
pub proof fn law_option_letters_roundtrip(o: Options, s: String)
    requires
        s@ == literal_letters(o),
    ensures
        options_from_value_spec(&Value::Str(s)) == Ok::<Options, crate::error::RegexpError>(o),
{
    let t = literal_letters(o);
    let i = crate::options::letter_if(o.ignore_case, 'i');
    let m = crate::options::letter_if(o.multiline, 'm');
    let x = crate::options::letter_if(o.extended, 'x');
    assert(t == i + m + x);
    if o.ignore_case {
        assert(t[0] == 'i');
    } else {
        assert(!t.contains('i')) by {
            assert forall|k: int| 0 <= k < t.len() implies t[k] != 'i' by {
                if k < m.len() as int {
                    assert(t[k] == m[k]);
                } else {
                    assert(t[k] == x[k - m.len()]);
                }
            }
        }
    }
    if o.multiline {
        assert(t[i.len() as int] == 'm');
    } else {
        assert(!t.contains('m')) by {
            assert forall|k: int| 0 <= k < t.len() implies t[k] != 'm' by {
                if k < i.len() as int {
                    assert(t[k] == i[k]);
                } else {
                    assert(t[k] == x[k - i.len()]);
                }
            }
        }
    }
    if o.extended {
        assert(t[(i.len() + m.len()) as int] == 'x');
    } else {
        assert(!t.contains('x')) by {
            assert forall|k: int| 0 <= k < t.len() implies t[k] != 'x' by {
                if k < i.len() as int {
                    assert(t[k] == i[k]);
                } else {
                    assert(t[k] == m[k - i.len()]);
                }
            }
        }
    }
}

/// The encoding flag of a regexp, handed back to `Regexp.new` as its
/// encoding or its options, names the same encoding.
pub proof fn law_encoding_bits_roundtrip(e: Encoding, from_options: bool)
    ensures
        encoding_from_value_spec(&Value::Fixnum(encoding_bits(e)), from_options) == Ok::<
            Encoding,
            crate::error::RegexpError,
        >(e),
{
    assert(16i64 & !7i64 == 16i64) by (bit_vector);
    assert(32i64 & !7i64 == 32i64) by (bit_vector);
}

/// The option bits and the encoding flag of a regexp, or-ed into one
/// integer and handed to `Regexp.new` as its options, give back both the
/// options and the encoding.
pub proof fn law_options_and_encoding_in_one_integer(o: Options, e: Encoding)
    ensures
        new_args_spec(Some(&Value::Fixnum((flag_bits(o) as i64) | encoding_bits(e))), None) == Ok::<
            (Options, Encoding),
            crate::error::RegexpError,
        >((o, e)),
{
    lemma_bits_of_options(o);
    let n = flag_bits(o) as i64;
    let f = encoding_bits(e);
    assert(f == 16 || f == 32);
    assert((7i64 | 48i64) == 55i64) by (bit_vector);
    assert(((n | f) & !55i64 == 0) && ((n | f) & 1 == n & 1) && ((n | f) & 2 == n & 2) && ((n | f) & 4
        == n & 4) && ((n | f) & !7i64 == f)) by (bit_vector)
        requires
            0 <= n < 8,
            f == 16 || f == 32,
    ;
}

/// The pattern that the engine compiles opens with an option group, so
/// reading it again keeps it as it is: a regexp rebuilt from its engine
/// pattern (`to_s`) has the same engine pattern, whatever options it is
/// rebuilt with.
pub proof fn law_engine_pattern_is_kept(p: Seq<char>, o: Options, o2: Options)
    ensures
        opens_group(from_pattern_spec(p, o).0),
        from_pattern_spec(from_pattern_spec(p, o).0, o2).0 == from_pattern_spec(p, o).0,
{
    let q = from_pattern_spec(p, o).0;
    if !opens_group(p) {
        assert(q[0] == '(' && q[1] == '?');
    }
}

proof fn lemma_boundary_in_suffix(bytes: Seq<u8>, lo: int, k: int)
    requires
        valid_utf8(bytes),
        0 <= lo <= k <= bytes.len(),
        is_char_boundary(bytes, lo),
        is_char_boundary(bytes, k),
    ensures
        valid_utf8(bytes.subrange(lo, bytes.len() as int)),
        is_char_boundary(bytes.subrange(lo, bytes.len() as int), k - lo),
{
    let tail = bytes.subrange(lo, bytes.len() as int);
    valid_utf8_split(bytes, lo);
    if k == bytes.len() {
        is_char_boundary_start_end_of_seq(tail);
        assert(tail.len() as int == k - lo);
    } else if k > lo {
        is_char_boundary_iff_not_is_continuation_byte(bytes, k);
        is_char_boundary_iff_not_is_continuation_byte(tail, k - lo);
        assert(tail[k - lo] == bytes[k]);
    }
}

proof fn lemma_boundary_in_prefix(bytes: Seq<u8>, hi: int, k: int)
    requires
        valid_utf8(bytes),
        0 <= k <= hi <= bytes.len(),
        is_char_boundary(bytes, hi),
        is_char_boundary(bytes, k),
    ensures
        valid_utf8(bytes.subrange(0, hi)),
        is_char_boundary(bytes.subrange(0, hi), k),
{
    let head = bytes.subrange(0, hi);
    valid_utf8_split(bytes, hi);
    if k == hi {
        is_char_boundary_start_end_of_seq(head);
        assert(head.len() as int == k);
    } else if k > 0 {
        is_char_boundary_iff_not_is_continuation_byte(bytes, k);
        is_char_boundary_iff_not_is_continuation_byte(head, k);
        assert(head[k] == bytes[k]);
    }
}

proof fn lemma_boundary_in_slice(bytes: Seq<u8>, lo: int, hi: int, k: int)
    requires
        valid_utf8(bytes),
        0 <= lo <= k <= hi <= bytes.len(),
        is_char_boundary(bytes, lo),
        is_char_boundary(bytes, hi),
        is_char_boundary(bytes, k),
    ensures
        valid_utf8(bytes.subrange(lo, hi)),
        is_char_boundary(bytes.subrange(lo, hi), k - lo),
{
    let tail = bytes.subrange(lo, bytes.len() as int);
    lemma_boundary_in_suffix(bytes, lo, hi);
    lemma_boundary_in_suffix(bytes, lo, k);
    lemma_boundary_in_prefix(tail, hi - lo, k - lo);
    assert(tail.subrange(0, hi - lo) =~= bytes.subrange(lo, hi));
}

proof fn lemma_decode_split(bytes: Seq<u8>, lo: int, k: int, hi: int)
    requires
        valid_utf8(bytes),
        0 <= lo <= k <= hi <= bytes.len(),
        is_char_boundary(bytes, lo),
        is_char_boundary(bytes, hi),
        is_char_boundary(bytes, k),
    ensures
        decode_utf8(bytes.subrange(lo, hi)) == decode_utf8(bytes.subrange(lo, k)) + decode_utf8(
            bytes.subrange(k, hi),
        ),
{
    broadcast use group_utf8_lib;

    lemma_boundary_in_slice(bytes, lo, hi, k);
    let sub = bytes.subrange(lo, hi);
    decode_utf8_split(sub, k - lo);
    assert(sub.subrange(0, k - lo) =~= bytes.subrange(lo, k));
    assert(sub.subrange(k - lo, sub.len() as int) =~= bytes.subrange(k, hi));
}

/// The text before a match, the match and the text after it make up the
/// string: `pre_match + to_s + post_match == string`, each of the three
/// being there.
pub proof fn law_match_parts_make_up_the_string(m: MatchDataView, g: Seq<Option<(usize, usize)>>)
    requires
        valid_match(m),
        groups_of(m) == Some(g),
    ensures
        group_at(m.string, g, 0) is Some,
        around_match_spec(m, false) is Some,
        around_match_spec(m, true) is Some,
        around_match_spec(m, false)->0 + group_at(m.string, g, 0)->0 + around_match_spec(m, true)->0
            == m.string,
{
    broadcast use group_utf8_lib;

    let (b, e) = g[0]->0;
    assert(g[0] matches Some((b, e)));
    let bytes = encode_utf8(m.string);
    let n = bytes.len() as int;
    assert(b <= e <= n);
    assert(is_char_boundary(bytes, b as int));
    assert(is_char_boundary(bytes, e as int));
    is_char_boundary_start_end_of_seq(bytes);
    assert(is_char_boundary(bytes, n));
    assert(is_char_boundary(bytes, 0));
    lemma_decode_split(bytes, 0, b as int, n);
    lemma_decode_split(bytes, b as int, e as int, n);
    assert(bytes.subrange(0, n) =~= bytes);
}

/// Reading all groups (`to_a`) gives the whole match (`to_s`) followed by
/// the groups after it (`captures`), one text per group (`length`):
/// `to_a == [to_s] + captures` and `captures == to_a[1..]`.
pub proof fn law_to_a_is_to_s_then_captures(m: MatchDataView, g: Seq<Option<(usize, usize)>>)
    requires
        valid_match(m),
        groups_of(m) == Some(g),
    ensures
        texts_from(m, g, 0) == seq![group_at(m.string, g, 0)] + texts_from(m, g, 1),
        texts_from(m, g, 1) == texts_from(m, g, 0).subrange(1, texts_from(m, g, 0).len() as int),
        texts_from(m, g, 0).len() == length_spec(m),
{
    assert(g.len() > 0);
    assert(texts_from(m, g, 0) =~= seq![group_at(m.string, g, 0)] + texts_from(m, g, 1));
    assert(texts_from(m, g, 1) =~= texts_from(m, g, 0).subrange(1, texts_from(m, g, 0).len() as int));
}

/// A negative group number counts from the end: `m[-k]` is `m[length - k]`.
pub proof fn law_negative_index(m: MatchDataView, g: Seq<Option<(usize, usize)>>, i: i64)
    requires
        groups_of(m) == Some(g),
        i < 0,
        index_in_range(i),
        -i <= g.len(),
        g.len() + i <= i64::MAX,
    ensures
        at_index_spec(m, MatchIndex::Index(i)) == at_index_spec(m, MatchIndex::Index((g.len() + i) as i64)),
{
}

proof fn lemma_group_offsets(m: MatchDataView, g: Seq<Option<(usize, usize)>>, k: int)
    requires
        valid_match(m),
        groups_of(m) == Some(g),
        0 <= k < g.len(),
        g[k] is Some,
        m.string.len() <= i64::MAX,
    ensures
        group_at(m.string, g, k) matches Some(t) && offset_of_group(m, g, k, false) matches Some(b)
            && offset_of_group(m, g, k, true) matches Some(e) && b <= e && e - b == t.len(),
{
    broadcast use group_utf8_lib;

    let bytes = encode_utf8(m.string);
    let n = bytes.len() as int;
    let (bb, ee) = g[k]->0;
    assert(g[k] matches Some((bb, ee)));
    assert(bb <= ee <= n);
    assert(is_char_boundary(bytes, bb as int));
    assert(is_char_boundary(bytes, ee as int));
    is_char_boundary_start_end_of_seq(bytes);
    assert(is_char_boundary(bytes, 0));
    assert(is_char_boundary(bytes, n));
    lemma_decode_split(bytes, 0, bb as int, ee as int);
    lemma_decode_split(bytes, 0, ee as int, n);
    assert(bytes.subrange(0, n) =~= bytes);
    assert(byte_slice_spec(m.string, 0, bb as int) is Some);
    assert(byte_slice_spec(m.string, 0, ee as int) is Some);
    assert(byte_slice_spec(m.string, bb as int, ee as int) is Some);
}

/// The group that one number (negative from the end) or one name among
/// `args` addresses in `m`, as `[]`, `begin` and `end` read it.
pub open spec fn addressed_group(m: MatchDataView, args: Seq<Value>) -> Option<int> {
    match groups_of(m) {
        None => None,
        Some(g) => match extract_spec(args, length_spec(m) as usize) {
            Ok(Some(MatchIndex::Index(i))) => resolve_index(i, g.len() as int),
            Ok(Some(MatchIndex::Name(s))) => name_group(names_of(m), s@),
            _ => None,
        },
    }
}

/// For a group that took part in the match, addressed by number or by
/// name, `[]` gives its text and `begin` and `end` give numbers, with
/// `begin <= end` and `end - begin` the number of characters of the text:
/// offsets count characters, not bytes.
pub proof fn law_end_minus_begin_is_group_length(m: MatchDataView, args: Seq<Value>, g: Seq<Option<(usize, usize)>>, k: int)
    requires
        valid_match(m),
        m.string.len() <= i64::MAX,
        groups_of(m) == Some(g),
        addressed_group(m, args) == Some(k),
        0 <= k < g.len(),
        g[k] is Some,
    ensures
        idx_spec(m, args) matches Ok(IndexedView::Text(t)) && offset_spec(m, args, false) matches Ok(Some(b))
            && offset_spec(m, args, true) matches Ok(Some(e)) && b <= e && e - b == t.len(),
{
    lemma_group_offsets(m, g, k);
}

/// `match?`, `=~` and `match` (which `===` calls) agree: each finds a match
/// exactly when the others do, from the same start, and each is refused
/// where the engine gives up that search.
pub proof fn law_match_predicates_agree(
    r: RegexpView,
    s: Seq<char>,
    from: usize,
    res: Result<Option<MatchOutcome>, crate::error::RegexpError>,
)
    requires
        from <= encode_utf8(s).len(),
        match_spec(r, Some(s), from, res),
    ensures
        is_match_spec(r, Some(s), Some(from)) == match squiggle_spec(r, s, from) {
            Ok(p) => Ok::<Option<bool>, crate::error::RegexpError>(Some(p is Some)),
            Err(e) => Err(e),
        },
        is_match_spec(r, Some(s), None) == match squiggle_spec(r, s, 0) {
            Ok(p) => Ok::<Option<bool>, crate::error::RegexpError>(Some(p is Some)),
            Err(e) => Err(e),
        },
        res matches Ok(Some(o)) ==> (squiggle_spec(r, s, from) matches Ok(p) && (o.data is Some <==> p is Some)),
        squiggle_spec(r, s, from) is Err ==> res is Err,
{
}

/// `Regexp.escape(s)` shows as the quoted text between slashes: where the
/// quoted pattern compiles, the regexp's `inspect` is `"/" + escape(s) + "/"`,
/// with no option letters after it.
pub proof fn law_escape_inspects_as_quoted(s: Seq<char>)
    ensures
        build_spec(escape_spec(s), no_options(), Encoding::NoEncoding) matches Ok(rv) ==> rv.literal_pattern
            == escape_spec(s) && literal_letters(rv.literal_options) == Seq::<char>::empty(),
{
}

/// The characters that Ruby's `Regexp.escape` quotes: the metacharacters
/// `[ ] { } ( ) | - * . \ ? + ^ $ #`, the space, and the newline, tab,
/// carriage return, form feed and vertical tab.
pub open spec fn quoted_by_ruby(c: char) -> bool {
    c == '[' || c == ']' || c == '{' || c == '}' || c == '(' || c == ')' || c == '|' || c == '-'
        || c == '*' || c == '.' || c == '\\' || c == '?' || c == '+' || c == '^' || c == '$'
        || c == '#' || c == ' ' || c == '\n' || c == '\t' || c == '\r' || c == '\x0c' || c == '\x0b'
}

proof fn lemma_escape_append(s: Seq<char>, t: Seq<char>)
    ensures
        escape_spec(s + t) == escape_spec(s) + escape_spec(t),
    decreases s.len(),
{
    if s.len() == 0 {
        assert(s + t =~= t);
        assert(escape_spec(s) =~= Seq::<char>::empty());
        assert(escape_spec(s) + escape_spec(t) =~= escape_spec(t));
    } else {
        assert((s + t).drop_first() =~= s.drop_first() + t);
        assert((s + t)[0] == s[0]);
        lemma_escape_append(s.drop_first(), t);
        assert(escape_spec(s + t) =~= escape_spec(s) + escape_spec(t));
    }
}

/// Quoting goes character by character: the quoted form of `s + t` is the
/// quoted form of `s` followed by that of `t`.
pub proof fn law_escape_is_character_by_character(s: Seq<char>, t: Seq<char>)
    ensures
        escape_spec(s + t) == escape_spec(s) + escape_spec(t),
{
    lemma_escape_append(s, t);
}

/// Quoting leaves text alone that holds none of the characters Ruby quotes:
/// letters, digits and every other ordinary character stand for themselves.
pub proof fn law_escape_leaves_ordinary_text_alone(s: Seq<char>)
    requires
        forall|i: int| 0 <= i < s.len() ==> !quoted_by_ruby(#[trigger] s[i]),
    ensures
        escape_spec(s) == s,
    decreases s.len(),
{
    if s.len() == 0 {
        assert(escape_spec(s) =~= s);
    } else {
        let rest = s.drop_first();
        assert forall|i: int| 0 <= i < rest.len() implies !quoted_by_ruby(#[trigger] rest[i]) by {
            assert(rest[i] == s[i + 1]);
        }
        law_escape_leaves_ordinary_text_alone(rest);
        assert(!quoted_by_ruby(s[0]));
        assert(escape_spec(s) =~= seq![s[0]] + rest);
        assert(seq![s[0]] + rest =~= s);
    }
}

/// The letter that follows the backslash where Ruby quotes `c`: `n`, `t`,
/// `r`, `f` and `v` for the newline, tab, carriage return, form feed and
/// vertical tab; the character itself otherwise.
pub open spec fn quoting_letter(c: char) -> char {
    if c == '\n' {
        'n'
    } else if c == '\t' {
        't'
    } else if c == '\r' {
        'r'
    } else if c == '\x0c' {
        'f'
    } else if c == '\x0b' {
        'v'
    } else {
        c
    }
}

/// Each character Ruby quotes becomes a backslash and one more character:
/// a metacharacter or the space itself, a control character its letter.
/// So the quoted form never leaves a metacharacter bare, and reads back as
/// the character.
pub proof fn law_escape_quotes_special_characters(c: char)
    requires
        quoted_by_ruby(c),
    ensures
        escape_spec(seq![c]) == seq!['\\', quoting_letter(c)],
        unescape_spec(escape_spec(seq![c])) == seq![c],
{
    let e = Seq::<char>::empty();
    assert(seq![c].drop_first() =~= e);
    assert(escape_spec(e) =~= e);
    assert(seq![c][0] == c);
    assert(escape_spec(seq![c]) =~= escape_char(c));
    assert(escape_char(c) =~= seq!['\\', quoting_letter(c)]);
    lemma_unescape_escape(seq![c]);
}

/// The sources that `Regexp.union` joins: those of two nonempty lists of
/// patterns, one after the other, give the first list's joined sources, a
/// `|`, and the second's; a single pattern gives its own quoted source. So
/// `n` patterns are joined by exactly `n - 1` bars.
pub proof fn law_union_joins_with_one_bar_each(ps1: Seq<Value>, ps2: Seq<Value>, a: Seq<char>, b: Seq<char>)
    requires
        ps1.len() > 0,
        ps2.len() > 0,
        union_sources(ps1) == Ok::<Seq<char>, crate::error::RegexpError>(a),
        union_sources(ps2) == Ok::<Seq<char>, crate::error::RegexpError>(b),
    ensures
        union_sources(ps1 + ps2) == Ok::<Seq<char>, crate::error::RegexpError>(a + seq!['|'] + b),
        union_sources(seq![ps2[0]]) == union_source(&ps2[0]),
    decreases ps2.len(),
{
    assert(seq![ps2[0]].drop_last() =~= Seq::<Value>::empty());
    assert(seq![ps2[0]].last() == ps2[0]);
    let all = ps1 + ps2;
    assert(all.last() == ps2.last());
    if ps2.len() == 1 {
        assert(all.drop_last() =~= ps1);
        assert(ps2.drop_last() =~= Seq::<Value>::empty());
        assert(ps2.last() == ps2[0]);
    } else {
        let front = ps2.drop_last();
        let b0 = match union_sources(front) {
            Ok(x) => x,
            Err(_) => Seq::empty(),
        };
        let src = match union_source(&ps2.last()) {
            Ok(x) => x,
            Err(_) => Seq::empty(),
        };
        assert(union_sources(front) is Ok);
        assert(all.drop_last() =~= ps1 + front);
        law_union_joins_with_one_bar_each(ps1, front, a, b0);
        assert(a + seq!['|'] + b0 + seq!['|'] + src =~= a + seq!['|'] + (b0 + seq!['|'] + src));
    }
}

/// An exclusive range stops one group earlier than an inclusive one: for an
/// end `e` other than 0, `m[s...e] == m[s..e-1]`, whatever the signs of `s`
/// and `e` (so `m[s...-k] == m[s..-(k+1)]`).
pub proof fn law_exclusive_range_stops_one_earlier(m: MatchDataView, start: i64, end: i64)
    requires
        end != 0,
        end != i64::MIN,
    ensures
        idx_spec(m, seq![Value::Range { start, end, exclude_end: true }]) == idx_spec(
            m,
            seq![Value::Range { start, end: (end - 1) as i64, exclude_end: false }],
        ),
{
}

proof fn lemma_first_name_found(n: Seq<(Seq<char>, Seq<u32>)>, name: Seq<char>)
    ensures
        first_name(n, name) matches Some(j) ==> 0 <= j < n.len() && n[j].0 == name,
    decreases n.len(),
{
    if n.len() > 0 {
        lemma_first_name_found(n.drop_last(), name);
        if let Some(j) = first_name(n.drop_last(), name) {
            assert(n.drop_last()[j] == n[j]);
        }
    }
}

proof fn lemma_named_text_listed(text: Seq<char>, g: Seq<Option<(usize, usize)>>, n: Seq<(Seq<char>, Seq<u32>)>, name: Seq<char>, j: int, t: Seq<char>)
    requires
        first_name(n, name) == Some(j),
        n[j].1.len() > 0,
        group_at(text, g, n[j].1[0] as int) == Some(t),
    ensures
        named_texts(text, g, n).contains((name, t)),
    decreases n.len(),
{
    let rest = named_texts(text, g, n.drop_last());
    lemma_first_name_found(n, name);
    lemma_first_name_found(n.drop_last(), name);
    match first_name(n.drop_last(), name) {
        Some(i) => {
            assert(i == j);
            assert(n.drop_last()[j] == n[j]);
            lemma_named_text_listed(text, g, n.drop_last(), name, j, t);
            let k = choose|k: int| 0 <= k < rest.len() && rest[k] == (name, t);
            if n.last().1.len() > 0 && group_at(text, g, n.last().1[0] as int) is Some {
                assert(named_texts(text, g, n)[k] == (name, t));
            } else {
                assert(named_texts(text, g, n)[k] == (name, t));
            }
        },
        None => {
            assert(j == n.len() - 1);
            assert(n.last().0 == name);
            let all = named_texts(text, g, n);
            assert(all[all.len() - 1] == (name, t));
        },
    }
}

/// `named_captures` holds every name whose group took part in the match,
/// with the text that `m[name]` gives, an empty text included.
pub proof fn law_named_captures_hold_every_named_text(m: MatchDataView, g: Seq<Option<(usize, usize)>>, name: String, t: Seq<char>)
    requires
        groups_of(m) == Some(g),
        idx_spec(m, seq![Value::Str(name)]) == Ok::<IndexedView, crate::error::RegexpError>(IndexedView::Text(t)),
    ensures
        named_texts(m.string, g, names_of(m)).contains((name@, t)),
{
    let n = names_of(m);
    let j = first_name(n, name@)->0;
    lemma_named_text_listed(m.string, g, n, name@, j, t);
}

/// An inclusive range `m[s..e]` of group numbers within the groups lists
/// the texts of groups `s` to `e`, both included.
pub proof fn law_inclusive_range_lists_its_groups(m: MatchDataView, g: Seq<Option<(usize, usize)>>, start: i64, end: i64)
    requires
        groups_of(m) == Some(g),
        g.len() <= usize::MAX,
        0 <= start <= end < g.len(),
    ensures
        idx_spec(m, seq![Value::Range { start, end, exclude_end: false }]) == Ok::<IndexedView, crate::error::RegexpError>(
            IndexedView::List(Seq::new((end - start + 1) as nat, |j: int| group_at(m.string, g, start + j))),
        ),
{
    let v = Value::Range { start, end, exclude_end: false };
    let args = seq![v];
    assert(args.len() == 1 && args[0] == v);
    let l = (end - start + 1) as usize;
    assert(range_spec(start, end, false, g.len() as usize) == Some((start as int, l as int)));
    assert(extract_spec(args, length_spec(m) as usize) == Ok::<Option<MatchIndex>, crate::error::RegexpError>(
        Some(MatchIndex::StartLen(start, l)),
    ));
    assert(Seq::new(l as nat, |j: int| group_at(m.string, g, start as int + j)) =~= Seq::new(
        (end - start + 1) as nat,
        |j: int| group_at(m.string, g, start + j),
    ));
}

/// Negative ends of a range count from the end: `m[s..e]` (or `m[s...e]`)
/// with `s` or `e` in `-length..0` is the same as with `length + s` and
/// `length + e`.
pub proof fn law_negative_range_ends_count_from_the_end(
    m: MatchDataView,
    g: Seq<Option<(usize, usize)>>,
    start: i64,
    end: i64,
    exclude_end: bool,
)
    requires
        groups_of(m) == Some(g),
        g.len() <= i64::MAX,
        g.len() <= usize::MAX,
        -g.len() <= start,
        -g.len() <= end,
    ensures
        idx_spec(m, seq![Value::Range { start, end, exclude_end }]) == idx_spec(
            m,
            seq![
                Value::Range {
                    start: (if start < 0 { start + g.len() } else { start as int }) as i64,
                    end: (if end < 0 { end + g.len() } else { end as int }) as i64,
                    exclude_end,
                },
            ],
        ),
{
    let s2 = (if start < 0 { start + g.len() } else { start as int }) as i64;
    let e2 = (if end < 0 { end + g.len() } else { end as int }) as i64;
    let a1 = seq![Value::Range { start, end, exclude_end }];
    let a2 = seq![Value::Range { start: s2, end: e2, exclude_end }];
    assert(a1.len() == 1 && a1[0] == Value::Range { start, end, exclude_end });
    assert(a2.len() == 1 && a2[0] == Value::Range { start: s2, end: e2, exclude_end });
    assert(range_spec(start, end, exclude_end, g.len() as usize) == range_spec(s2, e2, exclude_end, g.len() as usize));
}

/// A start and a length address the same groups as the range from that
/// start over that many groups: `m[s, l] == m[s..s+l-1]` within the groups.
pub proof fn law_start_and_length_is_a_range(m: MatchDataView, g: Seq<Option<(usize, usize)>>, start: i64, len: i64)
    requires
        groups_of(m) == Some(g),
        g.len() <= usize::MAX,
        g.len() <= i64::MAX,
        0 <= start,
        1 <= len,
        start + len <= g.len(),
    ensures
        idx_spec(m, seq![Value::Fixnum(start), Value::Fixnum(len)]) == idx_spec(
            m,
            seq![Value::Range { start, end: (start + len - 1) as i64, exclude_end: false }],
        ),
{
    let a1 = seq![Value::Fixnum(start), Value::Fixnum(len)];
    let v = Value::Range { start, end: (start + len - 1) as i64, exclude_end: false };
    let a2 = seq![v];
    assert(a1.len() == 2 && a1[0] == Value::Fixnum(start) && a1[1] == Value::Fixnum(len));
    assert(a2.len() == 1 && a2[0] == v);
    assert(range_spec(start, (start + len - 1) as i64, false, g.len() as usize) == Some((start as int, len as int)));
}

proof fn lemma_named_text_source(text: Seq<char>, g: Seq<Option<(usize, usize)>>, n: Seq<(Seq<char>, Seq<u32>)>, x: (Seq<char>, Seq<char>))
    requires
        named_texts(text, g, n).contains(x),
    ensures
        exists|k: int|
            0 <= k < n.len() && (#[trigger] n[k]).1.len() > 0 && n[k].0 == x.0 && group_at(text, g, n[k].1[0] as int)
                == Some(x.1),
    decreases n.len(),
{
    let rest = named_texts(text, g, n.drop_last());
    let all = named_texts(text, g, n);
    let i = choose|i: int| 0 <= i < all.len() && all[i] == x;
    if i < rest.len() {
        assert(rest[i] == x);
        lemma_named_text_source(text, g, n.drop_last(), x);
        let k = choose|k: int|
            0 <= k < n.drop_last().len() && (#[trigger] n.drop_last()[k]).1.len() > 0 && n.drop_last()[k].0 == x.0
                && group_at(text, g, n.drop_last()[k].1[0] as int) == Some(x.1);
        assert(n[k] == n.drop_last()[k]);
    } else {
        let k = n.len() - 1;
        assert(n[k] == n.last());
    }
}

proof fn lemma_first_name_of_distinct(n: Seq<(Seq<char>, Seq<u32>)>, k: int)
    requires
        names_distinct_view(n),
        0 <= k < n.len(),
    ensures
        first_name(n, n[k].0) == Some(k),
    decreases n.len(),
{
    let name = n[k].0;
    lemma_first_name_found(n.drop_last(), name);
    if k < n.len() - 1 {
        assert(n.drop_last()[k] == n[k]);
        assert forall|i: int, j: int| 0 <= i < j < n.drop_last().len() implies (#[trigger] n.drop_last()[i]).0
            != (#[trigger] n.drop_last()[j]).0 by {
            assert(n.drop_last()[i] == n[i] && n.drop_last()[j] == n[j]);
        }
        lemma_first_name_of_distinct(n.drop_last(), k);
    } else {
        if let Some(j) = first_name(n.drop_last(), name) {
            assert(n.drop_last()[j] == n[j]);
            assert(n[j].0 != n[k].0);
        }
    }
}

/// Where the regexp's names are distinct (as the engine reports them, and
/// as `MatchData#named_captures` states), every entry of `named_captures`
/// is a name with the text that `m[name]` gives: nothing else is listed.
pub proof fn law_named_captures_hold_only_named_texts(
    m: MatchDataView,
    g: Seq<Option<(usize, usize)>>,
    name: String,
    t: Seq<char>,
)
    requires
        groups_of(m) == Some(g),
        names_distinct_view(names_of(m)),
        named_texts(m.string, g, names_of(m)).contains((name@, t)),
    ensures
        idx_spec(m, seq![Value::Str(name)]) == Ok::<IndexedView, crate::error::RegexpError>(IndexedView::Text(t)),
{
    let n = names_of(m);
    lemma_named_text_source(m.string, g, n, (name@, t));
    let k = choose|k: int|
        0 <= k < n.len() && (#[trigger] n[k]).1.len() > 0 && n[k].0 == name@ && group_at(m.string, g, n[k].1[0] as int)
            == Some(t);
    lemma_first_name_of_distinct(n, k);
}

} // verus!
