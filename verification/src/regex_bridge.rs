//! The bridge to the regex engine. Compilation and matching are outside
//! calls; their results are named by uninterpreted functions of the pattern
//! and the text, so everything downstream of a match is verified relative to
//! what the engine returned.

use vstd::prelude::*;

verus! {

#[verifier::external_type_specification]
#[verifier::external_body]
pub struct ExRegex(regex::Regex);

/// Whether the regex engine accepts `pattern`.
pub uninterp spec fn regex_valid(pattern: Seq<char>) -> bool;

/// The capture groups, group 0 excluded, of the leftmost match of the regex
/// compiled from `pattern` against `text`; nothing when there is no match.
pub uninterp spec fn regex_captures(pattern: Seq<char>, text: Seq<char>) -> Option<
    Seq<Option<Seq<char>>>,
>;

/// The view of one optional captured group.
pub open spec fn opt_chars_view(o: Option<Vec<char>>) -> Option<Seq<char>> {
    match o {
        Option::Some(v) => Option::Some(v@),
        Option::None => Option::None,
    }
}

/// The views of a capture-group vector.
pub open spec fn caps_seq_view(v: Seq<Option<Vec<char>>>) -> Seq<Option<Seq<char>>> {
    Seq::new(v.len(), |i: int| opt_chars_view(v[i]))
}

/// The view of an optional capture-group vector.
pub open spec fn captures_view(r: Option<Vec<Option<Vec<char>>>>) -> Option<
    Seq<Option<Seq<char>>>,
> {
    match r {
        Option::Some(v) => Option::Some(caps_seq_view(v@)),
        Option::None => Option::None,
    }
}

/// A compiled regex, carrying the pattern it was built from.
pub struct CompiledRegex {
    re: regex::Regex,
    pattern_chars: Vec<char>,
}

impl CompiledRegex {
    /// The pattern this regex was compiled from.
    pub closed spec fn pattern(&self) -> Seq<char> {
        self.pattern_chars@
    }

    /// Relies on regex::Regex::new: compilation succeeds exactly when the
    /// pattern is acceptable regex syntax.
    #[verifier::external_body]
    pub fn new(pattern: &Vec<char>) -> (r: Option<CompiledRegex>)
        ensures
            r is Some <==> regex_valid(pattern@),
            r matches Option::Some(c) ==> c.pattern() == pattern@,
    {
        let p: String = pattern.iter().collect();
        match regex::Regex::new(&p) {
            Ok(re) => Some(CompiledRegex { re, pattern_chars: pattern.clone() }),
            Err(_) => None,
        }
    }

    /// Relies on regex::Regex::captures: the capture groups of the leftmost
    /// match, in group order, the whole-match group excluded; `None` when the
    /// regex does not match the text.
    #[verifier::external_body]
    pub fn captures(&self, text: &Vec<char>) -> (r: Option<Vec<Option<Vec<char>>>>)
        ensures
            captures_view(r) == regex_captures(self.pattern(), text@),
    {
        let t: String = text.iter().collect();
        match self.re.captures(&t) {
            None => None,
            Some(caps) => Some(
                (1..caps.len()).map(
                    |g| caps.get(g).map(|m| m.as_str().chars().collect()),
                ).collect(),
            ),
        }
    }
}

} // verus!
