use vstd::prelude::*;

use owo_colors::OwoColorize;

verus! {

/// `s` shown in yellow: the ANSI escape for a yellow foreground, `s`, then the
/// escape back to the default foreground.
pub open spec fn yellow_text(s: Seq<char>) -> Seq<char> {
    "\x1b[33m"@ + s + "\x1b[39m"@
}

/// `s` shown dimmed: the ANSI escape for dim text, `s`, then the reset escape.
pub open spec fn dimmed_text(s: Seq<char>) -> Seq<char> {
    "\x1b[2m"@ + s + "\x1b[0m"@
}

/// `s` underlined: the ANSI escape for underlining, `s`, then the reset escape.
pub open spec fn underlined_text(s: Seq<char>) -> Seq<char> {
    "\x1b[4m"@ + s + "\x1b[0m"@
}

/// `owo_colors::OwoColorize::yellow`, displayed into a `String`. Trusted: its
/// `Display` writes `\x1b[33m`, the text, then `\x1b[39m`.
#[verifier::external_body]
pub(crate) fn yellow(s: &str) -> (r: String)
    ensures
        r@ == yellow_text(s@),
{
    s.yellow().to_string()
}

/// `owo_colors::OwoColorize::dimmed`, displayed into a `String`. Trusted: its
/// `Display` writes `\x1b[2m`, the text, then `\x1b[0m`.
#[verifier::external_body]
pub(crate) fn dimmed(s: &str) -> (r: String)
    ensures
        r@ == dimmed_text(s@),
{
    s.dimmed().to_string()
}

/// `owo_colors::OwoColorize::underline`, displayed into a `String`. Trusted:
/// its `Display` writes `\x1b[4m`, the text, then `\x1b[0m`.
#[verifier::external_body]
pub(crate) fn underline(s: &str) -> (r: String)
    ensures
        r@ == underlined_text(s@),
{
    s.underline().to_string()
}

} // verus!
