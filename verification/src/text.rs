use vstd::prelude::*;
use vstd::string::StringSliceAdditionalSpecFns;
use vstd::utf8::*;

verus! {

/// Whether `s` holds the character `c`.
pub fn contains_char(s: &str, c: char) -> (b: bool)
    ensures
        b == s@.contains(c),
{
    for x in it: s.chars()
        invariant
            it.seq() == s@,
            forall|j: int| 0 <= j < it.index() ==> s@[j] != c,
    {
        if x == c {
            return true;
        }
    }
    false
}

/// Appends `c` to `s`, with `String::push`.
#[verifier::external_body]
pub fn push_char(s: &mut String, c: char)
    ensures
        final(s)@ == old(s)@.push(c),
{
    s.push(c);
}

/// The text of `text` between bytes `b` and `e` of its UTF-8 encoding, where
/// both are character boundaries with `b <= e`; `None` otherwise.
pub open spec fn byte_slice_spec(text: Seq<char>, b: int, e: int) -> Option<Seq<char>> {
    let bytes = encode_utf8(text);
    if 0 <= b <= e <= bytes.len() && is_char_boundary(bytes, b) && is_char_boundary(bytes, e) {
        Some(decode_utf8(bytes.subrange(b, e)))
    } else {
        None
    }
}

/// The text of `text` between bytes `b` and `e`, where both are character
/// boundaries with `b <= e`.
pub fn byte_slice(text: &str, b: usize, e: usize) -> (r: Option<&str>)
    ensures
        match r {
            Some(t) => byte_slice_spec(text@, b as int, e as int) == Some(t@),
            None => byte_slice_spec(text@, b as int, e as int) is None,
        },
{
    broadcast use group_utf8_lib;

    let ghost bytes = encode_utf8(text@);
    if b > e {
        return None;
    }
    assert(text.spec_bytes() == bytes);
    if !text.is_char_boundary(b) || !text.is_char_boundary(e) {
        assert(!is_char_boundary(bytes, b as int) || !is_char_boundary(bytes, e as int));
        return None;
    }
    assert(e <= bytes.len()) by {
        reveal_with_fuel(is_char_boundary, 1);
    }
    let (head, _) = text.split_at(e);
    assert(valid_utf8(bytes.subrange(0, e as int)));
    assert(is_char_boundary(head.spec_bytes(), b as int)) by {
        if b < e {
            assert(head.spec_bytes()[b as int] == bytes[b as int]);
        }
    }
    let (_, slice) = head.split_at(b);
    assert(slice.spec_bytes() =~= bytes.subrange(b as int, e as int));
    assert(decode_utf8(encode_utf8(slice@)) == slice@);
    assert(decode_utf8(bytes.subrange(b as int, e as int)) == slice@);
    assert(byte_slice_spec(text@, b as int, e as int) == Some(slice@));
    Some(slice)
}

} // verus!
