//! The calls into the Oniguruma engine (the `onig` crate), each behind a
//! trusted item whose contract states what the engine's source shows.
//!
//! The engine's answers are named as functions of their arguments. They are
//! that within a process that leaves Oniguruma's global configuration alone
//! (user-defined Unicode properties, `onig::define_user_property`, and the
//! default retry and stack limits); this library never changes it.

use vstd::prelude::*;
use vstd::utf8::{encode_utf8, is_char_boundary};
use vstd::string::StringSliceAdditionalSpecFns;

use onig::{MatchParam, Regex, RegexOptions, Region, SearchOptions, Syntax};

verus! {

/// The engine's compiled regular expression, opaque to the library.
#[verifier::external_type_specification]
#[verifier::external_body]
pub struct ExRegex(Regex);

/// Whether the engine compiles `pattern` in Ruby syntax with the option
/// bits `options`.
pub uninterp spec fn onig_compiles(pattern: Seq<char>, options: u32) -> bool;

/// What the engine answers when it searches `text` from byte `from` to its
/// end for `pattern` (compiled in Ruby syntax with the option bits
/// `options`): the byte position where the leftmost match starts, and the
/// byte range of each group of that match (`None` for a group that took no
/// part), group 0 being the whole match; `Ok(None)` without a match; `Err`
/// where the engine gives up (such as at its limit of retries).
pub uninterp spec fn onig_search(pattern: Seq<char>, options: u32, text: Seq<char>, from: usize) -> Result<Option<(usize, Seq<Option<(usize, usize)>>)>, ()>;

/// The named groups of `pattern` (compiled in Ruby syntax with the option
/// bits `options`), in the engine's order: each name with the numbers of
/// the groups that carry it.
pub uninterp spec fn onig_names(pattern: Seq<char>, options: u32) -> Seq<(Seq<char>, Seq<u32>)>;

/// A regular expression that the engine compiled, with the pattern and the
/// option bits that it was compiled from.
pub struct Compiled {
    regex: Regex,
    pattern: Ghost<Seq<char>>,
    options: Ghost<u32>,
}

impl Compiled {
    /// The pattern that this expression was compiled from.
    pub closed spec fn pattern(&self) -> Seq<char> {
        self.pattern@
    }

    /// The option bits that this expression was compiled with.
    pub closed spec fn options(&self) -> u32 {
        self.options@
    }
}

/// Compiles `pattern` with `onig::Regex::with_options`, in Ruby syntax, with
/// the option bits `options` (whose bits 1, 2 and 4 are the engine's
/// ignore-case, extend and multiline options). Claimed: the result is
/// `Some` exactly when the engine compiles the pattern, and it records the
/// pattern and options it was compiled from.
#[verifier::external_body]
pub fn compile(pattern: &str, options: u32) -> (r: Option<Compiled>)
    ensures
        r is Some <==> onig_compiles(pattern@, options),
        r matches Some(c) ==> c.pattern() == pattern@ && c.options() == options,
{
    Regex::with_options(pattern, RegexOptions::from_bits_retain(options), Syntax::ruby()).ok().map(
        |regex| Compiled { regex, pattern: Ghost(pattern@), options: Ghost(options) },
    )
}

/// The view of an optional string.
pub open spec fn opt_view(s: Option<String>) -> Option<Seq<char>> {
    match s {
        Some(t) => Some(t@),
        None => None,
    }
}

/// Whether the names `r` that the library holds are the names `n` that the
/// engine reports.
pub open spec fn names_agree(r: Seq<(String, Vec<u32>)>, n: Seq<(Seq<char>, Seq<u32>)>) -> bool {
    &&& r.len() == n.len()
    &&& forall|i: int| 0 <= i < r.len() ==> (#[trigger] r[i]).0@ == n[i].0 && r[i].1@ == n[i].1
}

/// Whether the groups `g` of a match in `text` are as the engine reports
/// them: group 0 (the whole match) is there and took part, and each group
/// that took part has a byte range, start before end, within `text`.
pub open spec fn groups_within(text: Seq<char>, g: Seq<Option<(usize, usize)>>) -> bool {
    &&& g.len() > 0
    &&& g[0] is Some
    &&& forall|i: int|
        0 <= i < g.len() ==> (#[trigger] g[i] matches Some((b, e)) ==> b <= e <= encode_utf8(text).len())
}

/// Whether every group of `g` that took part starts and ends on a character
/// boundary of `text`.
pub open spec fn groups_on_char_boundaries(text: Seq<char>, g: Seq<Option<(usize, usize)>>) -> bool {
    forall|i: int|
        0 <= i < g.len() ==> (#[trigger] g[i] matches Some((b, e)) ==> is_char_boundary(encode_utf8(text), b as int)
            && is_char_boundary(encode_utf8(text), e as int))
}

/// Whether the names `n` each carry at least one group, each numbered from 1.
pub open spec fn names_numbered(n: Seq<(String, Vec<u32>)>) -> bool {
    forall|i: int|
        0 <= i < n.len() ==> (#[trigger] n[i]).1@.len() > 0 && forall|k: int|
            0 <= k < n[i].1@.len() ==> 1 <= #[trigger] n[i].1@[k]
}

/// Whether every group number of the names `n` lies below the number of
/// group ranges `g` that a match reports.
pub open spec fn names_below(n: Seq<(String, Vec<u32>)>, g: Seq<Option<(usize, usize)>>) -> bool {
    forall|i: int, k: int| 0 <= i < n.len() && 0 <= k < n[i].1@.len() ==> #[trigger] n[i].1@[k] < g.len()
}

/// Whether `pattern` holds `\K`, the one way a Ruby pattern moves the start
/// of its whole match past the place where the match was tried (the
/// engine's keep).
pub open spec fn writes_keep(pattern: Seq<char>) -> bool {
    exists|i: int| 0 <= i && i + 1 < pattern.len() && #[trigger] pattern[i] == '\\' && pattern[i + 1] == 'K'
}

/// Searches `text` from byte `from` to its end with
/// `onig::Regex::search_with_param` (no search options, the default match
/// parameters, a fresh `Region`), and reads each group's range off the
/// region with `Region::pos`. Claimed: the result is what `onig_search`
/// names, the engine's error being `Err`. As the crate documents, group 0
/// is the entire match and the positions are byte indices in `text`
/// (`Captures::at` slices `text` by them). Where `from` is a character
/// boundary, the group ranges are too: Oniguruma's UTF-8 encoding steps
/// through the text a whole character at a time (its search advances by
/// `enclen`, and a pattern's raw bytes must form whole characters, else it
/// is refused as an invalid wide character), which `Captures::at` and the
/// crate's iterators rely on when they slice a `&str`. The position that
/// the search returns is where the successful attempt started (`s - str`
/// in `onig_search`), at or after `from`; the engine sets group 0's start
/// to that same place (`keep`, regexec.c) unless the pattern moves it with
/// `\K`.
#[verifier::external_body]
pub fn search(re: &Compiled, text: &str, from: usize) -> (r: Result<Option<(usize, Vec<Option<(usize, usize)>>)>, ()>)
    requires
        from <= text.spec_bytes().len(),
    ensures
        match r {
            Ok(Some((p, g))) => onig_search(re.pattern(), re.options(), text@, from) == Ok::<
                Option<(usize, Seq<Option<(usize, usize)>>)>,
                (),
            >(Some((p, g@))) && groups_within(text@, g@) && from <= p <= text.spec_bytes().len() && (
            !writes_keep(re.pattern()) ==> (g@[0] matches Some((b, _)) && b == p)) && (is_char_boundary(
                text.spec_bytes(),
                from as int,
            ) ==> groups_on_char_boundaries(text@, g@)),
            Ok(None) => onig_search(re.pattern(), re.options(), text@, from) == Ok::<
                Option<(usize, Seq<Option<(usize, usize)>>)>,
                (),
            >(None),
            Err(_) => onig_search(re.pattern(), re.options(), text@, from) is Err,
        },
{
    let mut region = Region::new();
    match re.regex.search_with_param(
        text,
        from,
        text.len(),
        SearchOptions::SEARCH_OPTION_NONE,
        Some(&mut region),
        MatchParam::default(),
    ) {
        Ok(Some(pos)) => Ok(Some((pos, (0..region.len()).map(|i| region.pos(i)).collect()))),
        Ok(None) => Ok(None),
        Err(_) => Err(()),
    }
}

/// Appends one named group, as the engine reports it, to `names`.
pub fn record_name(names: &mut Vec<(String, Vec<u32>)>, name: &str, groups: &[u32]) -> (more: bool)
    ensures
        final(names)@.len() == old(names)@.len() + 1,
        forall|i: int| 0 <= i < old(names)@.len() ==> final(names)@[i] == old(names)@[i],
        final(names)@.last().0@ == name@,
        final(names)@.last().1@ == groups@,
        more,
{
    names.push((name.to_owned(), vstd::slice::slice_to_vec(groups)));
    true
}

/// The named groups of `re`, with `onig::Regex::foreach_name`, whose
/// callback records each name and its group numbers in turn. Claimed: the
/// result is what `onig_names` names, and each name comes once, with all
/// the groups that carry it (the engine's table of names is keyed by name,
/// as the crate's own test of `(?<bar>..)(?<bar>..)` shows). Each name
/// carries at least one group, numbered from 1 up to the number of groups
/// of the pattern, so below the number of ranges that a match reports (the
/// region holds one range per group, group 0 included).
#[verifier::external_body]
pub fn capture_names(re: &Compiled) -> (r: Vec<(String, Vec<u32>)>)
    ensures
        names_agree(r@, onig_names(re.pattern(), re.options())),
        forall|i: int, j: int| 0 <= i < j < r@.len() ==> (#[trigger] r@[i]).0@ != (#[trigger] r@[j]).0@,
        names_numbered(r@),
        forall|text: Seq<char>, from: usize|
            #![trigger onig_search(re.pattern(), re.options(), text, from)]
            onig_search(re.pattern(), re.options(), text, from) matches Ok(Some((_, g))) ==> names_below(r@, g),
{
    let mut names = Vec::new();
    re.regex.foreach_name(|name, groups| record_name(&mut names, name, groups));
    names
}

} // verus!
