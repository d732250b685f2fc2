# mruby_regexp

Ruby's `Regexp` and `MatchData` for the mruby interpreter, as a Verus-verified
library on top of the Oniguruma engine (the `onig` crate).

- `options`, `encoding`: reading the options and encoding arguments of
  `Regexp.new` (integers, booleans, strings) and the inline option group of a
  pattern; rendering options as literal flags and as an Oniguruma group.
- `regexp`: `Regexp.new`/`compile`, literals, `escape`, `union`, `match?`,
  `match`, `=~`, `==`, `===`, `names`, `named_captures`, `options`, `to_s`,
  `inspect`, and `init`, the table of classes, methods and constants that an
  interpreter defines.
- `match_data`: `MatchData#[]`, `begin`, `end`, `length`, `captures`,
  `named_captures`, `pre_match`, `post_match`, `to_a`, `to_s`.
- `syntax`: quoting of text as a literal pattern.
- `engine`: the trusted calls into Oniguruma (compile, search, named
  groups); every other function is verified against their contracts. A
  search that the engine gives up (at its limit of retries) is refused with
  `RegexpError::SearchFailed`.
- `laws`: properties proved across functions (option round trips, the engine
  pattern being kept, `pre_match + to_s + post_match == string`,
  `to_a == [to_s] + captures`, `end - begin` being the group's length, ...).

Ruby values handed to these methods are modelled by `value::Value`; errors
are `error::RegexpError`, with the class and message Ruby raises.
