//! Regular expressions compiled by the `regex` crate, each kept with its source text
//! so that contracts can speak of what it matches.

use vstd::prelude::*;

verus! {

#[verifier::external_type_specification]
#[verifier::external_body]
pub struct ExRegex(regex::Regex);

/// `regex::Regex::new(p)` succeeds.
pub uninterp spec fn regex_valid(p: Seq<char>) -> bool;

/// `regex::Regex::new(p)` matches somewhere in `text` (`Regex::is_match`).
pub uninterp spec fn regex_is_match(p: Seq<char>, text: Seq<char>) -> bool;

/// The first match of `p` in `text`, by `Regex::captures`: `None` without a match,
/// otherwise the text of each capture group (group 0 being the whole match), `None`
/// for a group that took no part in the match.
pub uninterp spec fn regex_captures(p: Seq<char>, text: Seq<char>) -> Option<Seq<Option<Seq<char>>>>;

/// Capture group `i` of a match: `None` without a match, `Some(None)` when the group
/// took no part in it (or does not exist).
pub open spec fn capture_group(caps: Option<Seq<Option<Seq<char>>>>, i: int) -> Option<Option<Seq<char>>> {
    match caps {
        Some(c) => Some(
            if 0 <= i < c.len() {
                c[i]
            } else {
                None
            },
        ),
        None => None,
    }
}

/// Capture group 1 of the first match of `p` in `text`.
pub open spec fn regex_captures_group1(p: Seq<char>, text: Seq<char>) -> Option<Option<Seq<char>>> {
    capture_group(regex_captures(p, text), 1)
}

/// The text of each group, as plain values.
pub open spec fn groups_view(v: Seq<Option<String>>) -> Seq<Option<Seq<char>>> {
    v.map_values(|o: Option<String>| match o {
        Some(s) => Some(s@),
        None => None,
    })
}

/// The text of capture group `i` of a match, empty when the group took no part.
pub open spec fn group_text(caps: Seq<Option<Seq<char>>>, i: int) -> Seq<char> {
    if 0 <= i < caps.len() {
        match caps[i] {
            Some(g) => g,
            None => Seq::empty(),
        }
    } else {
        Seq::empty()
    }
}

/// The text of group `i` (empty when it took no part in the match).
pub fn take_group_text(groups: &Vec<Option<String>>, i: usize) -> (r: String)
    ensures
        r@ == group_text(groups_view(groups@), i as int),
{
    if i < groups.len() {
        match &groups[i] {
            Some(g) => g.clone(),
            None => String::new(),
        }
    } else {
        String::new()
    }
}

/// A compiled regular expression and the pattern it was compiled from.
pub struct Matcher {
    source: String,
    re: regex::Regex,
}

impl Matcher {
    /// The pattern the expression was compiled from.
    pub closed spec fn source(&self) -> Seq<char> {
        self.source@
    }

    /// Compiles a pattern (`Regex::new`); `None` when the pattern is invalid.
    #[verifier::external_body]
    pub(crate) fn compile(pattern: &str) -> (r: Option<Matcher>)
        ensures
            r is Some <==> regex_valid(pattern@),
            r matches Some(m) ==> m.source() == pattern@,
    {
        match regex::Regex::new(pattern) {
            Ok(re) => Some(Matcher { source: pattern.to_string(), re }),
            Err(_) => None,
        }
    }

    /// Whether the expression matches somewhere in `text` (`Regex::is_match`).
    #[verifier::external_body]
    pub(crate) fn is_match(&self, text: &str) -> (r: bool)
        ensures
            r == regex_is_match(self.source(), text@),
    {
        self.re.is_match(text)
    }

    /// The groups of the first match in `text` (`Regex::captures`); there is a first
    /// match exactly when the expression matches.
    #[verifier::external_body]
    pub(crate) fn captures(&self, text: &str) -> (r: Option<Vec<Option<String>>>)
        ensures
            r is Some <==> regex_is_match(self.source(), text@),
            regex_captures(self.source(), text@) == (match r {
                Some(v) => Some(groups_view(v@)),
                None => None,
            }),
    {
        match self.re.captures(text) {
            Some(caps) => Some(caps.iter().map(|g| g.map(|m| m.as_str().to_string())).collect()),
            None => None,
        }
    }

    /// The first match in `text` and its capture group 1.
    pub fn captures_group1(&self, text: &str) -> (r: Option<Option<String>>)
        ensures
            r is Some <==> regex_is_match(self.source(), text@),
            match r {
                None => regex_captures_group1(self.source(), text@) is None,
                Some(None) => regex_captures_group1(self.source(), text@) == Some(
                    None::<Seq<char>>,
                ),
                Some(Some(g)) => regex_captures_group1(self.source(), text@) == Some(Some(g@)),
            },
    {
        match self.captures(text) {
            Some(mut v) => {
                if v.len() > 1 {
                    let g = v.remove(1);
                    Some(g)
                } else {
                    Some(None)
                }
            },
            None => None,
        }
    }
}

} // verus!
