use vstd::prelude::*;
use vstd::utf8::*;

use crate::engine::{capture_names, groups_on_char_boundaries, groups_within, onig_names, onig_search, opt_view};
use crate::error::RegexpError;
use crate::options::flag_bits;
use crate::regexp::{Regexp, RegexpView};
use crate::text::{byte_slice, byte_slice_spec};
use crate::value::{RustType, Value, ruby_type_of};

verus! {

/// What a match is, as contracts speak of it.
pub struct MatchDataView {
    pub string: Seq<char>,
    pub regexp: RegexpView,
    pub start_pos: usize,
}

/// The result of a successful `Regexp#match`: the string searched, the
/// regexp, the byte position the search started from, and the group ranges
/// of the leftmost match in the whole string, which every method reads.
/// Every public method states that its match is valid (`valid_match`), so
/// the laws about matches apply to a `MatchData` that a caller holds.
pub struct MatchData {
    string: String,
    regexp: Regexp,
    start_pos: usize,
    groups: Option<Vec<Option<(usize, usize)>>>,
}

impl View for MatchData {
    type V = MatchDataView;

    closed spec fn view(&self) -> MatchDataView {
        MatchDataView { string: self.string@, regexp: self.regexp@, start_pos: self.start_pos }
    }
}

/// The group ranges of the leftmost match of the regexp in the whole
/// string, which every method of `MatchData` reads; `None` without a match.
pub open spec fn groups_of(m: MatchDataView) -> Option<Seq<Option<(usize, usize)>>> {
    match onig_search(m.regexp.pattern, flag_bits(m.regexp.options), m.string, 0) {
        Ok(Some((_, g))) => Some(g),
        _ => None,
    }
}

/// What holds of every `MatchData`: the engine answered the search of the
/// whole string, and a match found there has its whole match as group 0
/// and every group range within the string, start before end, on
/// character boundaries.
pub open spec fn valid_match(m: MatchDataView) -> bool {
    &&& onig_search(m.regexp.pattern, flag_bits(m.regexp.options), m.string, 0) is Ok
    &&& groups_of(m) matches Some(g) ==> groups_within(m.string, g) && groups_on_char_boundaries(m.string, g)
}

/// The view of optional group ranges.
pub open spec fn positions_view(g: Option<Vec<Option<(usize, usize)>>>) -> Option<Seq<Option<(usize, usize)>>> {
    match g {
        Some(v) => Some(v@),
        None => None,
    }
}

/// The names of the named groups of the regexp of `m`.
pub open spec fn names_of(m: MatchDataView) -> Seq<(Seq<char>, Seq<u32>)> {
    onig_names(m.regexp.pattern, flag_bits(m.regexp.options))
}

/// The text of a group with byte range `g` in `text`; `None` for a group
/// that took no part, or whose range cuts a character.
pub open spec fn group_text_spec(text: Seq<char>, g: Option<(usize, usize)>) -> Option<Seq<char>> {
    match g {
        Some((b, e)) => byte_slice_spec(text, b as int, e as int),
        None => None,
    }
}

/// The text of group `i` of the groups `g` of `text`; `None` for a group
/// that does not exist or took no part.
pub open spec fn group_at(text: Seq<char>, g: Seq<Option<(usize, usize)>>, i: int) -> Option<Seq<char>> {
    if 0 <= i < g.len() {
        group_text_spec(text, g[i])
    } else {
        None
    }
}

/// How `MatchData#[]`, `begin` and `end` address groups.
pub enum MatchIndex {
    /// One group by number; a negative number counts from the end.
    Index(i64),
    /// The first group of a name.
    Name(String),
    /// `len` groups from a start, which counts from the end if negative.
    StartLen(i64, usize),
}

/// A group number `i` from a Ruby integer, counted from the end (`len`
/// groups) if negative.
pub open spec fn resolve_index(i: i64, len: int) -> Option<int> {
    if i < 0 {
        if -i <= len {
            Some(len + i)
        } else {
            None
        }
    } else {
        Some(i as int)
    }
}

/// Whether a Ruby integer can address a group without overflow.
pub open spec fn index_in_range(i: i64) -> bool {
    i != i64::MIN && (if i < 0 {
        -i
    } else {
        i as int
    }) <= usize::MAX
}

/// The start and length that the range `start..end` (or `start...end`)
/// selects among `length` groups, as Ruby reads a range: negative ends
/// count from the end; a start before the first or after the last group
/// selects nothing (`None`), as does one beyond the largest integer; the
/// end is cut at the last group.
pub open spec fn range_spec(start: i64, end: i64, exclude_end: bool, length: usize) -> Option<(int, int)> {
    let b = if start < 0 {
        start + length
    } else {
        start as int
    };
    let e0 = if end < 0 {
        end + length
    } else {
        end as int
    };
    let e1 = if exclude_end {
        e0
    } else {
        e0 + 1
    };
    let e = if e1 > length {
        length as int
    } else {
        e1
    };
    if b < 0 || b > length || b > i64::MAX {
        None
    } else {
        Some((b, if e - b < 0 {
            0
        } else {
            e - b
        }))
    }
}

/// How the arguments of `MatchData#[]` address groups, among `length`
/// groups: one integer, a name (string or symbol), a range, or a start and
/// a length; `None` where Ruby answers `nil` (a range that selects
/// nothing, a negative length).
pub open spec fn extract_spec(args: Seq<Value>, length: usize) -> Result<Option<MatchIndex>, RegexpError> {
    if args.len() == 1 {
        match args[0] {
            Value::Fixnum(i) => Ok(Some(MatchIndex::Index(i))),
            Value::Str(s) => Ok(Some(MatchIndex::Name(s))),
            Value::Symbol(s) => Ok(Some(MatchIndex::Name(s))),
            Value::Range { start, end, exclude_end } => match range_spec(start, end, exclude_end, length) {
                Some((b, l)) => Ok(Some(MatchIndex::StartLen(b as i64, l as usize))),
                None => Ok(None),
            },
            _ => Err(RegexpError::Conversion { from: ruby_type_of(&args[0]), to: RustType::Integer }),
        }
    } else if args.len() == 2 {
        match (args[0], args[1]) {
            (Value::Fixnum(s), Value::Fixnum(l)) => if l < 0 {
                Ok(None)
            } else {
                Ok(Some(MatchIndex::StartLen(s, l as usize)))
            },
            (Value::Fixnum(_), _) => Err(RegexpError::Conversion { from: ruby_type_of(&args[1]), to: RustType::Integer }),
            _ => Err(RegexpError::Conversion { from: ruby_type_of(&args[0]), to: RustType::Integer }),
        }
    } else {
        Err(RegexpError::WrongArgumentCount)
    }
}

/// Whether a lone integer among `args` can address a group without
/// overflow (what `begin` and `end` read).
pub open spec fn offset_args_in_range(args: Seq<Value>) -> bool {
    args.len() == 1 ==> (args[0] matches Value::Fixnum(i) ==> index_in_range(i))
}

/// Whether every integer among `args` can address a group without
/// overflow (a length fits `usize`).
pub open spec fn args_in_range(args: Seq<Value>) -> bool {
    &&& args.len() >= 1 ==> (args[0] matches Value::Fixnum(i) ==> index_in_range(i))
    &&& args.len() >= 2 ==> (args[1] matches Value::Fixnum(l) ==> l <= usize::MAX)
}

/// The first entry of `n` with the name `name`.
pub open spec fn first_name(n: Seq<(Seq<char>, Seq<u32>)>, name: Seq<char>) -> Option<int>
    decreases n.len(),
{
    if n.len() == 0 {
        None
    } else {
        match first_name(n.drop_last(), name) {
            Some(i) => Some(i),
            None => if n.last().0 == name {
                Some(n.len() - 1)
            } else {
                None
            },
        }
    }
}

/// The number of the first group named `name`.
pub open spec fn name_group(n: Seq<(Seq<char>, Seq<u32>)>, name: Seq<char>) -> Option<int> {
    match first_name(n, name) {
        Some(k) => if n[k].1.len() > 0 {
            Some(n[k].1[0] as int)
        } else {
            None
        },
        None => None,
    }
}

/// What `MatchData#[]` answers, as contracts speak of it.
pub enum IndexedView {
    Nil,
    Text(Seq<char>),
    List(Seq<Option<Seq<char>>>),
}

/// What `MatchData#[]` answers: `nil`, one group's text, or a list of
/// groups' texts (`None` for a group that took no part).
pub enum Indexed {
    Nil,
    Text(String),
    List(Vec<Option<String>>),
}

/// The view of an answer of `MatchData#[]`.
pub open spec fn indexed_view(r: Indexed) -> IndexedView {
    match r {
        Indexed::Nil => IndexedView::Nil,
        Indexed::Text(s) => IndexedView::Text(s@),
        Indexed::List(v) => IndexedView::List(v@.map_values(|x: Option<String>| opt_view(x))),
    }
}

/// `nil` or a text.
pub open spec fn text_or_nil(t: Option<Seq<char>>) -> IndexedView {
    match t {
        Some(s) => IndexedView::Text(s),
        None => IndexedView::Nil,
    }
}

/// The group that `index` addresses in `m`, read as `MatchData#[]` reads
/// it: a number (negative from the end) or a name gives that group's text;
/// a start and a length give the texts of that many groups from the start,
/// past the last group too; `nil` without a match.
pub open spec fn at_index_spec(m: MatchDataView, index: MatchIndex) -> IndexedView {
    match groups_of(m) {
        None => IndexedView::Nil,
        Some(g) => match index {
            MatchIndex::Index(i) => match resolve_index(i, g.len() as int) {
                Some(k) => text_or_nil(group_at(m.string, g, k)),
                None => IndexedView::Nil,
            },
            MatchIndex::Name(s) => match name_group(names_of(m), s@) {
                Some(k) => text_or_nil(group_at(m.string, g, k)),
                None => IndexedView::Nil,
            },
            MatchIndex::StartLen(s, l) => match resolve_index(s, g.len() as int) {
                Some(k) => IndexedView::List(Seq::new(l as nat, |j: int| group_at(m.string, g, k + j))),
                None => IndexedView::Nil,
            },
        },
    }
}

/// The number of groups of `m`, 0 without a match.
pub open spec fn length_spec(m: MatchDataView) -> nat {
    match groups_of(m) {
        Some(g) => g.len(),
        None => 0,
    }
}

/// `MatchData#[](args)`.
pub open spec fn idx_spec(m: MatchDataView, args: Seq<Value>) -> Result<IndexedView, RegexpError> {
    match extract_spec(args, length_spec(m) as usize) {
        Err(e) => Err(e),
        Ok(None) => Ok(IndexedView::Nil),
        Ok(Some(index)) => Ok(at_index_spec(m, index)),
    }
}

/// The character offset of byte `b` in `text`, as a Ruby integer: `None`
/// where `b` is no character boundary or the count exceeds the largest
/// integer.
pub open spec fn char_offset(text: Seq<char>, b: usize) -> Option<i64> {
    match byte_slice_spec(text, 0, b as int) {
        Some(t) => if t.len() <= i64::MAX {
            Some(t.len() as i64)
        } else {
            None
        },
        None => None,
    }
}

/// The character offset where group `k` of `m` starts (or, with
/// `at_end`, ends).
pub open spec fn offset_of_group(m: MatchDataView, g: Seq<Option<(usize, usize)>>, k: int, at_end: bool) -> Option<i64> {
    if 0 <= k < g.len() {
        match g[k] {
            Some((b, e)) => char_offset(m.string, if at_end { e } else { b }),
            None => None,
        }
    } else {
        None
    }
}

/// `MatchData#begin(args)` (or, with `at_end`, `end`): the character
/// offset of the group that one number or one name addresses; refused for a
/// start and a length.
pub open spec fn offset_spec(m: MatchDataView, args: Seq<Value>, at_end: bool) -> Result<Option<i64>, RegexpError> {
    match extract_spec(args, length_spec(m) as usize) {
        Err(e) => Err(e),
        Ok(None) => Err(RegexpError::MustPassIndexOrSymbol),
        Ok(Some(MatchIndex::StartLen(_, _))) => Err(RegexpError::MustPassIndexOrSymbol),
        Ok(Some(MatchIndex::Index(i))) => match groups_of(m) {
            None => Ok(None),
            Some(g) => match resolve_index(i, g.len() as int) {
                Some(k) => Ok(offset_of_group(m, g, k, at_end)),
                None => Ok(None),
            },
        },
        Ok(Some(MatchIndex::Name(s))) => match groups_of(m) {
            None => Ok(None),
            Some(g) => match name_group(names_of(m), s@) {
                Some(k) => Ok(offset_of_group(m, g, k, at_end)),
                None => Ok(None),
            },
        },
    }
}

/// The texts of the groups `from` on of `m`.
pub open spec fn texts_from(m: MatchDataView, g: Seq<Option<(usize, usize)>>, from: int) -> Seq<Option<Seq<char>>> {
    Seq::new(if g.len() > from { (g.len() - from) as nat } else { 0 }, |j: int| group_at(m.string, g, from + j))
}

/// The names of `n` whose first group took part, each with that group's
/// text, in the order of `n`.
pub open spec fn named_texts(text: Seq<char>, g: Seq<Option<(usize, usize)>>, n: Seq<(Seq<char>, Seq<u32>)>) -> Seq<(Seq<char>, Seq<char>)>
    decreases n.len(),
{
    if n.len() == 0 {
        Seq::empty()
    } else {
        let rest = named_texts(text, g, n.drop_last());
        let last = n.last();
        if last.1.len() > 0 && group_at(text, g, last.1[0] as int) is Some {
            rest.push((last.0, group_at(text, g, last.1[0] as int)->0))
        } else {
            rest
        }
    }
}

/// The text of `m` before (or, with `after`, after) its match.
pub open spec fn around_match_spec(m: MatchDataView, after: bool) -> Option<Seq<char>> {
    match groups_of(m) {
        Some(g) => if g.len() > 0 {
            match g[0] {
                Some((b, e)) => if after {
                    byte_slice_spec(m.string, e as int, encode_utf8(m.string).len() as int)
                } else {
                    byte_slice_spec(m.string, 0, b as int)
                },
                None => None,
            }
        } else {
            None
        },
        None => None,
    }
}

/// The view of a list of optional strings.
pub open spec fn opt_views(v: Seq<Option<String>>) -> Seq<Option<Seq<char>>> {
    v.map_values(|x: Option<String>| opt_view(x))
}

fn resolve(i: i64, len: usize) -> (r: Option<usize>)
    requires
        index_in_range(i),
    ensures
        match r {
            Some(k) => resolve_index(i, len as int) == Some(k as int),
            None => resolve_index(i, len as int) is None,
        },
{
    if i < 0 {
        len.checked_sub((-i) as usize)
    } else {
        Some(i as usize)
    }
}

fn find_name(names: &Vec<(String, Vec<u32>)>, name: &String) -> (r: Option<usize>)
    ensures
        match r {
            Some(k) => k < names@.len() && first_name(
                names@.map_values(|x: (String, Vec<u32>)| (x.0@, x.1@)),
                name@,
            ) == Some(k as int),
            None => first_name(names@.map_values(|x: (String, Vec<u32>)| (x.0@, x.1@)), name@) is None,
        },
{
    let ghost n = names@.map_values(|x: (String, Vec<u32>)| (x.0@, x.1@));
    let mut i: usize = 0;
    while i < names.len()
        invariant
            i <= names@.len(),
            n == names@.map_values(|x: (String, Vec<u32>)| (x.0@, x.1@)),
            first_name(n.take(i as int), name@) is None,
        decreases names@.len() - i,
    {
        assert(n.take(i + 1).drop_last() =~= n.take(i as int));
        if names[i].0 == *name {
            proof {
                lemma_first_name_prefix(n, name@, i as int + 1);
            }
            return Some(i);
        }
        i = i + 1;
    }
    assert(n.take(names@.len() as int) =~= n);
    None
}

proof fn lemma_first_name_prefix(n: Seq<(Seq<char>, Seq<u32>)>, name: Seq<char>, k: int)
    requires
        0 <= k <= n.len(),
        first_name(n.take(k), name) is Some,
    ensures
        first_name(n, name) == first_name(n.take(k), name),
    decreases n.len() - k,
{
    if k < n.len() {
        assert(n.take(k + 1).drop_last() =~= n.take(k));
        lemma_first_name_prefix(n, name, k + 1);
    } else {
        assert(n.take(k) =~= n);
    }
}

/// The text of group `k` among the ranges `g` of a match in `text`.
pub(crate) fn group_text_in(text: &str, g: &Vec<Option<(usize, usize)>>, k: usize) -> (r: Option<String>)
    ensures
        opt_view(r) == group_at(text@, g@, k as int),
{
    if k < g.len() {
        match g[k] {
            Some((b, e)) => match byte_slice(text, b, e) {
                Some(t) => Some(t.to_owned()),
                None => None,
            },
            None => None,
        }
    } else {
        None
    }
}

/// Whether no name occurs twice in `n`.
pub open spec fn names_distinct_view(n: Seq<(Seq<char>, Seq<u32>)>) -> bool {
    forall|i: int, j: int| 0 <= i < j < n.len() ==> (#[trigger] n[i]).0 != (#[trigger] n[j]).0
}

/// The names that the library holds, as the engine's names.
pub open spec fn names_view(r: Seq<(String, Vec<u32>)>) -> Seq<(Seq<char>, Seq<u32>)> {
    r.map_values(|x: (String, Vec<u32>)| (x.0@, x.1@))
}

impl MatchData {
    #[verifier::type_invariant]
    spec fn groups_recorded(self) -> bool {
        &&& valid_match(self@)
        &&& positions_view(self.groups) == groups_of(self@)
    }

    /// The match of `regexp` in `string`, searched from byte `start_pos`,
    /// with the group ranges `groups` of the leftmost match in the whole
    /// string.
    pub(crate) fn from_parts(
        string: String,
        regexp: Regexp,
        start_pos: usize,
        groups: Option<Vec<Option<(usize, usize)>>>,
    ) -> (m: Self)
        requires
            valid_match(MatchDataView { string: string@, regexp: regexp@, start_pos }),
            positions_view(groups) == groups_of(MatchDataView { string: string@, regexp: regexp@, start_pos }),
        ensures
            m@ == (MatchDataView { string: string@, regexp: regexp@, start_pos }),
    {
        MatchData { string, regexp, start_pos, groups }
    }

    fn positions(&self) -> (r: &Option<Vec<Option<(usize, usize)>>>)
        ensures
            positions_view(*r) == groups_of(self@),
            valid_match(self@),
    {
        proof {
            use_type_invariant(self);
        }
        &self.groups
    }

    /// The text of group `k` among the ranges `g` of this match.
    fn group_text(&self, g: &Vec<Option<(usize, usize)>>, k: usize) -> (r: Option<String>)
        ensures
            opt_view(r) == group_at(self@.string, g@, k as int),
    {
        group_text_in(self.string.as_str(), g, k)
    }

    fn names(&self) -> (r: Vec<(String, Vec<u32>)>)
        ensures
            names_view(r@) == names_of(self@),
            names_distinct_view(names_of(self@)),
    {
        match self.regexp.regex() {
            Some(re) => {
                let r = capture_names(&re);
                assert(names_view(r@) =~= names_of(self@));
                r
            },
            None => Vec::new(),
        }
    }

    /// `string`: the string that was searched.
    pub fn string(&self) -> (s: String)
        ensures
            valid_match(self@),
            s@ == self@.string,
    {
        proof {
            use_type_invariant(self);
        }
        self.string.clone()
    }

    /// `regexp`: the regexp that matched.
    pub fn regexp(&self) -> (r: Regexp)
        ensures
            valid_match(self@),
            r@ == self@.regexp,
    {
        proof {
            use_type_invariant(self);
        }
        self.regexp.clone()
    }

    /// `length` (and `size`): the number of groups, the whole match
    /// included.
    pub fn length(&self) -> (n: usize)
        ensures
            valid_match(self@),
            n == length_spec(self@),
    {
        proof {
            use_type_invariant(self);
        }
        match self.positions() {
            Some(g) => g.len(),
            None => 0,
        }
    }

    fn texts_from(&self, g: &Vec<Option<(usize, usize)>>, from: usize) -> (v: Vec<Option<String>>)
        ensures
            opt_views(v@) == texts_from(self@, g@, from as int),
    {
        let mut v: Vec<Option<String>> = Vec::new();
        let mut k = from;
        while k < g.len()
            invariant
                k >= from,
                from <= g@.len() ==> k <= g@.len(),
                from > g@.len() ==> k == from,
                v@.len() == k - from,
                forall|j: int| 0 <= j < v@.len() ==> opt_view(#[trigger] v@[j]) == group_at(self@.string, g@, from + j),
            decreases g@.len() - k,
        {
            v.push(self.group_text(g, k));
            k = k + 1;
        }
        assert(from <= g@.len() ==> k == g@.len());
        assert(opt_views(v@) =~= texts_from(self@, g@, from as int));
        v
    }

    /// `captures`: the texts of the groups after the whole match; `None`
    /// without a match.
    pub fn captures(&self) -> (r: Option<Vec<Option<String>>>)
        ensures
            valid_match(self@),
            match groups_of(self@) {
                None => r is None,
                Some(g) => r matches Some(v) && opt_views(v@) == texts_from(self@, g, 1),
            },
    {
        proof {
            use_type_invariant(self);
        }
        match self.positions() {
            Some(g) => Some(self.texts_from(g, 1)),
            None => None,
        }
    }

    /// `to_a`: the texts of all groups, the whole match first; `None`
    /// without a match.
    pub fn to_a(&self) -> (r: Option<Vec<Option<String>>>)
        ensures
            valid_match(self@),
            match groups_of(self@) {
                None => r is None,
                Some(g) => r matches Some(v) && opt_views(v@) == texts_from(self@, g, 0),
            },
    {
        proof {
            use_type_invariant(self);
        }
        match self.positions() {
            Some(g) => Some(self.texts_from(g, 0)),
            None => None,
        }
    }

    /// `to_s`: the text of the whole match; the empty string without a
    /// match.
    pub fn to_s(&self) -> (r: Option<String>)
        ensures
            valid_match(self@),
            opt_view(r) == match groups_of(self@) {
                None => Some(Seq::<char>::empty()),
                Some(g) => group_at(self@.string, g, 0),
            },
    {
        proof {
            use_type_invariant(self);
        }
        match self.positions() {
            Some(g) => self.group_text(g, 0),
            None => Some(String::new()),
        }
    }

    /// `pre_match`: the text before the match; `None` without a match.
    pub fn pre_match(&self) -> (r: Option<String>)
        ensures
            valid_match(self@),
            opt_view(r) == around_match_spec(self@, false),
    {
        proof {
            use_type_invariant(self);
        }
        match self.positions() {
            Some(g) => {
                if g.len() == 0 {
                    return None;
                }
                match g[0] {
                    Some((b, _)) => match byte_slice(self.string.as_str(), 0, b) {
                        Some(t) => Some(t.to_owned()),
                        None => None,
                    },
                    None => None,
                }
            },
            None => None,
        }
    }

    /// `post_match`: the text after the match; `None` without a match.
    pub fn post_match(&self) -> (r: Option<String>)
        ensures
            valid_match(self@),
            opt_view(r) == around_match_spec(self@, true),
    {
        proof {
            use_type_invariant(self);
        }
        match self.positions() {
            Some(g) => {
                if g.len() == 0 {
                    return None;
                }
                match g[0] {
                    Some((_, e)) => {
                        let bytes = self.string.as_str().as_bytes();
                        match byte_slice(self.string.as_str(), e, bytes.len()) {
                            Some(t) => Some(t.to_owned()),
                            None => None,
                        }
                    },
                    None => None,
                }
            },
            None => None,
        }
    }

    /// `named_captures`: each name whose first group took part, with that
    /// group's text, each name once; `None` without a match.
    pub fn named_captures(&self) -> (r: Option<Vec<(String, String)>>)
        ensures
            valid_match(self@),
            match groups_of(self@) {
                None => r is None,
                Some(g) => r matches Some(v) && names_distinct_view(names_of(self@)) && v@.map_values(|x: (String, String)| (x.0@, x.1@))
                    == named_texts(self@.string, g, names_of(self@)) && forall|i: int, j: int|
                    0 <= i < j < v@.len() ==> (#[trigger] v@[i]).0@ != (#[trigger] v@[j]).0@,
            },
    {
        proof {
            use_type_invariant(self);
        }
        match self.positions() {
            Some(g) => {
                let names = self.names();
                let ghost n = names_view(names@);
                let mut map: Vec<(String, String)> = Vec::new();
                let mut i: usize = 0;
                while i < names.len()
                    invariant
                        i <= names@.len(),
                        n == names_view(names@),
                        n == names_of(self@),
                        names_distinct_view(n),
                        g@ == groups_of(self@)->0,
                        map@.map_values(|x: (String, String)| (x.0@, x.1@)) == named_texts(
                            self@.string,
                            g@,
                            n.take(i as int),
                        ),
                        forall|a: int|
                            0 <= a < map@.len() ==> exists|j: int|
                                0 <= j < i && (#[trigger] map@[a]).0@ == #[trigger] n[j].0,
                        forall|a: int, b: int|
                            0 <= a < b < map@.len() ==> (#[trigger] map@[a]).0@ != (#[trigger] map@[b]).0@,
                    decreases names@.len() - i,
                {
                    let ghost before = map@;
                    assert(n.take(i + 1).drop_last() =~= n.take(i as int));
                    assert(n.take(i + 1).last() == n[i as int]);
                    let groups = &names[i].1;
                    if groups.len() > 0 {
                        let k = groups[0] as usize;
                        match self.group_text(g, k) {
                            Some(t) => {
                                map.push((names[i].0.clone(), t));
                                assert(map@.map_values(|x: (String, String)| (x.0@, x.1@)) =~= before.map_values(
                                    |x: (String, String)| (x.0@, x.1@),
                                ).push((n[i as int].0, group_at(self@.string, g@, k as int)->0)));
                                assert forall|a: int| 0 <= a < map@.len() - 1 implies (#[trigger] map@[a]).0@
                                    != map@[map@.len() - 1].0@ by {
                                    let j = choose|j: int| 0 <= j < i && before[a].0@ == #[trigger] n[j].0;
                                    assert(n[j].0 != n[i as int].0);
                                }
                                assert forall|a: int| 0 <= a < map@.len() implies exists|j: int|
                                    0 <= j < i + 1 && (#[trigger] map@[a]).0@ == #[trigger] n[j].0 by {
                                    if a == map@.len() - 1 {
                                        assert(map@[a].0@ == n[i as int].0);
                                    } else {
                                        let j = choose|j: int| 0 <= j < i && before[a].0@ == #[trigger] n[j].0;
                                        assert(map@[a].0@ == n[j].0);
                                    }
                                }
                            },
                            None => {},
                        }
                    }
                    i = i + 1;
                }
                assert(n.take(names@.len() as int) =~= n);
                Some(map)
            },
            None => None,
        }
    }
}

/// Whether an index can address a group without overflow.
pub open spec fn match_index_in_range(index: MatchIndex) -> bool {
    match index {
        MatchIndex::Index(i) => index_in_range(i),
        MatchIndex::Name(_) => true,
        MatchIndex::StartLen(s, _) => index_in_range(s),
    }
}

impl MatchIndex {
    /// How the arguments of `MatchData#[]` address groups, among `length`
    /// groups.
    pub fn extract(args: &Vec<Value>, length: usize) -> (res: Result<Option<MatchIndex>, RegexpError>)
        ensures
            res == extract_spec(args@, length),
            args_in_range(args@) ==> (res matches Ok(Some(ix)) ==> match_index_in_range(ix)),
            args@.len() == 1 && (args@[0] matches Value::Fixnum(i) ==> index_in_range(i)) ==> (
            res matches Ok(Some(ix)) ==> match_index_in_range(ix)),
    {
        if args.len() == 1 {
            match &args[0] {
                Value::Fixnum(i) => Ok(Some(MatchIndex::Index(*i))),
                Value::Str(s) => Ok(Some(MatchIndex::Name(s.clone()))),
                Value::Symbol(s) => Ok(Some(MatchIndex::Name(s.clone()))),
                Value::Range { start, end, exclude_end } => {
                    let len = length as i128;
                    let b: i128 = if *start < 0 {
                        *start as i128 + len
                    } else {
                        *start as i128
                    };
                    let e0: i128 = if *end < 0 {
                        *end as i128 + len
                    } else {
                        *end as i128
                    };
                    let e1: i128 = if *exclude_end {
                        e0
                    } else {
                        e0 + 1
                    };
                    let e: i128 = if e1 > len {
                        len
                    } else {
                        e1
                    };
                    if b < 0 || b > len || b > i64::MAX as i128 {
                        Ok(None)
                    } else {
                        let l: i128 = if e - b < 0 {
                            0
                        } else {
                            e - b
                        };
                        Ok(Some(MatchIndex::StartLen(b as i64, l as usize)))
                    }
                },
                _ => Err(RegexpError::Conversion { from: args[0].ruby_type(), to: RustType::Integer }),
            }
        } else if args.len() == 2 {
            match (&args[0], &args[1]) {
                (Value::Fixnum(s), Value::Fixnum(l)) => {
                    if *l < 0 {
                        Ok(None)
                    } else {
                        Ok(Some(MatchIndex::StartLen(*s, *l as usize)))
                    }
                },
                (Value::Fixnum(_), _) => Err(RegexpError::Conversion { from: args[1].ruby_type(), to: RustType::Integer }),
                _ => Err(RegexpError::Conversion { from: args[0].ruby_type(), to: RustType::Integer }),
            }
        } else {
            Err(RegexpError::WrongArgumentCount)
        }
    }
}

impl MatchData {
    fn group_number(&self, index: &MatchIndex, len: usize) -> (r: Option<usize>)
        requires
            match_index_in_range(*index),
            !(index is StartLen),
        ensures
            match r {
                Some(k) => match *index {
                    MatchIndex::Index(i) => resolve_index(i, len as int) == Some(k as int),
                    MatchIndex::Name(s) => name_group(names_of(self@), s@) == Some(k as int),
                    _ => false,
                },
                None => match *index {
                    MatchIndex::Index(i) => resolve_index(i, len as int) is None,
                    MatchIndex::Name(s) => name_group(names_of(self@), s@) is None,
                    _ => false,
                },
            },
    {
        match index {
            MatchIndex::Index(i) => resolve(*i, len),
            MatchIndex::Name(name) => {
                let names = self.names();
                match find_name(&names, name) {
                    Some(k) => {
                        let groups = &names[k].1;
                        if groups.len() > 0 {
                            Some(groups[0] as usize)
                        } else {
                            None
                        }
                    },
                    None => None,
                }
            },
            MatchIndex::StartLen(_, _) => None,
        }
    }

    fn at_index(&self, index: &MatchIndex) -> (r: Indexed)
        requires
            match_index_in_range(*index),
        ensures
            indexed_view(r) == at_index_spec(self@, *index),
    {
        let g = match self.positions() {
            Some(g) => g,
            None => return Indexed::Nil,
        };
        let n = g.len();
        match index {
            MatchIndex::StartLen(s, l) => {
                let k = match resolve(*s, n) {
                    Some(k) => k,
                    None => return Indexed::Nil,
                };
                let mut matches: Vec<Option<String>> = Vec::new();
                for j in 0..*l
                    invariant
                        n == g@.len(),
                        matches@.len() == j,
                        forall|i: int|
                            0 <= i < j ==> opt_view(#[trigger] matches@[i]) == group_at(
                                self@.string,
                                g@,
                                k + i,
                            ),
                {
                    let t = match k.checked_add(j) {
                        Some(i) => self.group_text(g, i),
                        None => None,
                    };
                    matches.push(t);
                }
                assert(opt_views(matches@) =~= Seq::new(*l as nat, |i: int| group_at(self@.string, g@, k + i)));
                Indexed::List(matches)
            },
            _ => {
                match self.group_number(index, n) {
                    Some(k) => match self.group_text(g, k) {
                        Some(t) => Indexed::Text(t),
                        None => Indexed::Nil,
                    },
                    None => Indexed::Nil,
                }
            },
        }
    }

    /// `[](args)`: the group or groups that the arguments address.
    pub fn idx(&self, args: &Vec<Value>) -> (r: Result<Indexed, RegexpError>)
        requires
            args_in_range(args@),
        ensures
            valid_match(self@),
            match r {
                Ok(x) => idx_spec(self@, args@) == Ok::<IndexedView, RegexpError>(indexed_view(x)),
                Err(e) => idx_spec(self@, args@) == Err::<IndexedView, RegexpError>(e),
            },
    {
        proof {
            use_type_invariant(self);
        }
        let length = self.length();
        match MatchIndex::extract(args, length) {
            Err(e) => Err(e),
            Ok(None) => Ok(Indexed::Nil),
            Ok(Some(index)) => Ok(self.at_index(&index)),
        }
    }

    fn char_offset(&self, b: usize) -> (r: Option<i64>)
        ensures
            r == char_offset(self@.string, b),
    {
        match byte_slice(self.string.as_str(), 0, b) {
            Some(t) => {
                let count = t.unicode_len();
                if (count as u128) <= (i64::MAX as u128) {
                    Some(count as i64)
                } else {
                    None
                }
            },
            None => None,
        }
    }

    fn offset(&self, args: &Vec<Value>, at_end: bool) -> (r: Result<Option<i64>, RegexpError>)
        requires
            offset_args_in_range(args@),
        ensures
            r == offset_spec(self@, args@, at_end),
    {
        let length = self.length();
        let index = match MatchIndex::extract(args, length) {
            Err(e) => return Err(e),
            Ok(None) => return Err(RegexpError::MustPassIndexOrSymbol),
            Ok(Some(index)) => index,
        };
        if let MatchIndex::StartLen(_, _) = index {
            return Err(RegexpError::MustPassIndexOrSymbol);
        }
        let pos = match self.positions() {
            Some(g) => g,
            None => return Ok(None),
        };
        match self.group_number(&index, pos.len()) {
            Some(k) => {
                if k < pos.len() {
                    match pos[k] {
                        Some((b, e)) => Ok(self.char_offset(if at_end { e } else { b })),
                        None => Ok(None),
                    }
                } else {
                    Ok(None)
                }
            },
            None => Ok(None),
        }
    }

    /// `begin(args)`: the character offset where the addressed group starts.
    pub fn begin(&self, args: &Vec<Value>) -> (r: Result<Option<i64>, RegexpError>)
        requires
            offset_args_in_range(args@),
        ensures
            valid_match(self@),
            r == offset_spec(self@, args@, false),
    {
        proof {
            use_type_invariant(self);
        }
        self.offset(args, false)
    }

    /// `end(args)`: the character offset where the addressed group ends.
    pub fn end(&self, args: &Vec<Value>) -> (r: Result<Option<i64>, RegexpError>)
        requires
            offset_args_in_range(args@),
        ensures
            valid_match(self@),
            r == offset_spec(self@, args@, true),
    {
        proof {
            use_type_invariant(self);
        }
        self.offset(args, true)
    }
}

} // verus!
