use vstd::prelude::*;

verus! {

/// What the `regex` crate answers when `pattern` is compiled by `Regex::new`
/// and `text` is tested with `Regex::is_match`: `None` when the pattern does not
/// compile, else whether the pattern matches somewhere in `text`.
pub uninterp spec fn regex_match(pattern: Seq<char>, text: Seq<char>) -> Option<bool>;

/// A regular expression compiled by the `regex` crate.
#[verifier::external_type_specification]
#[verifier::external_body]
pub struct ExRegex(regex::Regex);

/// A pattern compiled once, to be tested against many texts; its view is the
/// text it was compiled from.
pub struct Pattern {
    source: String,
    regex: regex::Regex,
}

impl View for Pattern {
    type V = Seq<char>;

    closed spec fn view(&self) -> Seq<char> {
        self.source@
    }
}

/// Compiles `pattern` with `regex::Regex::new`, keeping the pattern's text
/// beside the compiled expression. Trusted: the result is claimed to be
/// `Some` exactly when the crate's answer for the pattern is not `None`, and
/// compiling does not depend on any text the pattern is later tested against.
#[verifier::external_body]
pub(crate) fn compile_pattern(pattern: &str) -> (r: Option<Pattern>)
    ensures
        match r {
            Some(p) => p@ == pattern@ && forall|t: Seq<char>| #[trigger] regex_match(pattern@, t) is Some,
            None => forall|t: Seq<char>| #[trigger] regex_match(pattern@, t) is None,
        },
{
    match regex::Regex::new(pattern) {
        Ok(regex) => Some(Pattern { source: pattern.to_owned(), regex }),
        Err(_) => None,
    }
}

/// Tests `text` with `regex::Regex::is_match` on a compiled pattern. Trusted:
/// the answer is claimed to be the crate's answer for the pattern's text and
/// `text`, named `regex_match`; which texts a pattern matches is not stated.
#[verifier::external_body]
pub(crate) fn pattern_matches(p: &Pattern, text: &str) -> (b: bool)
    ensures
        regex_match(p@, text@) == Some(b),
{
    p.regex.is_match(text)
}

} // verus!
