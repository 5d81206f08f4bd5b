//! Regular expressions over log text, through the `regex` crate.
use vstd::prelude::*;

verus! {

/// A compiled expression of the `regex` crate.
#[verifier::external_type_specification]
#[verifier::external_body]
pub struct ExRegex(regex::Regex);

/// A compiled regular expression with the pattern it was compiled from.
pub struct Pattern {
    re: regex::Regex,
    source: String,
}

impl Pattern {
    /// The pattern the expression was compiled from.
    pub closed spec fn source_view(&self) -> Seq<char> {
        self.source@
    }
}

/// The groups of every match of `pattern` in `text`, as `Regex::captures_iter`
/// yields them: matches left to right, not overlapping; in each, group 0 is
/// the whole match and a group that took no part is `None`.
pub uninterp spec fn regex_captures(pattern: Seq<char>, text: Seq<char>) -> Seq<Seq<Option<Seq<char>>>>;

/// The texts of the groups of a list of matches.
pub open spec fn captures_view(r: Seq<Vec<Option<String>>>) -> Seq<Seq<Option<Seq<char>>>> {
    r.map_values(
        |c: Vec<Option<String>>|
            c@.map_values(
                |m: Option<String>|
                    match m {
                        Some(s) => Some(s@),
                        None => None,
                    },
            ),
    )
}

/// The text of group `g` of a match, if it took part.
pub open spec fn group(c: Seq<Option<Seq<char>>>, g: int) -> Option<Seq<char>> {
    if 0 <= g < c.len() {
        c[g]
    } else {
        None
    }
}

/// Relies on `regex::Regex::new`: compiles `pattern`; `None` where it is no
/// valid expression.
#[verifier::external_body]
pub(crate) fn compile(pattern: &str) -> (r: Option<Pattern>)
    ensures
        r matches Some(p) ==> p.source_view() == pattern@,
{
    regex::Regex::new(pattern).ok().map(|re| Pattern { re, source: pattern.to_string() })
}

/// Relies on `regex::Regex::captures_iter`: the groups of every match.
#[verifier::external_body]
pub(crate) fn captures(p: &Pattern, text: &str) -> (r: Vec<Vec<Option<String>>>)
    ensures
        captures_view(r@) == regex_captures(p.source_view(), text@),
{
    p.re.captures_iter(text).map(|c| c.iter().map(|m| m.map(|m| m.as_str().to_string())).collect()).collect()
}

/// The text of group `g` of a match.
pub fn group_of(c: &Vec<Option<String>>, g: usize) -> (r: Option<&String>)
    ensures
        match group(captures_view(seq![*c])[0], g as int) {
            Some(t) => r matches Some(s) && s@ == t,
            None => r is None,
        },
{
    if g < c.len() {
        match &c[g] {
            Some(s) => Some(s),
            None => None,
        }
    } else {
        None
    }
}

} // verus!
