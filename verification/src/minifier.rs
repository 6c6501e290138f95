//! Text minification: whitespace runs are collapsed to a single space,
//! except inside a brace-delimited group that sits on one line, which is
//! kept verbatim.

use vstd::prelude::*;

verus! {

/// What the minification pass yields for a given text.
pub uninterp spec fn minified_of(s: Seq<char>) -> Seq<char>;

/// The replacement for one pattern match: a brace group is kept as it is,
/// a whitespace run becomes a single space.
pub fn replacer(brace: Option<&str>) -> (r: String)
    ensures
        match brace {
            Option::Some(b) => r@ == b@,
            Option::None => r@ == " "@,
        },
{
    match brace {
        Some(b) => b.to_owned(),
        None => " ".to_owned(),
    }
}

/// Relies on regex::Regex::new and Regex::replace_all: every match of a
/// fixed pattern — a single-line brace group, or else a whitespace run —
/// is replaced through [`replacer`]. The pattern is a constant that
/// compiles, so the fallback arm never runs, and the result depends on the
/// input text alone. No replacement is empty and unmatched text is kept,
/// so the result is empty exactly when the input is.
#[verifier::external_body]
pub(crate) fn minify_css(input: String) -> (r: String)
    ensures
        r@ == minified_of(input@),
        (r@.len() == 0) <==> (input@.len() == 0),
{
    if let Ok(re) = regex::Regex::new(r"(\{.*?\})|\s+") {
        re.replace_all(&input, |caps: &regex::Captures| replacer(
            caps.get(1).map(|m| m.as_str()),
        )).to_string()
    } else {
        input
    }
}

} // verus!
