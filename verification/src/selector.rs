//! Plugin selection: which analyzer mapping handles a given file name.

use vstd::prelude::*;
use crate::config::AnalyzerMapping;
use crate::config::str_eq;

verus! {

#[verifier::external_type_specification]
#[verifier::external_body]
pub struct ExGlobPattern(glob::Pattern);

/// `glob::Pattern::new(p)` succeeds.
pub uninterp spec fn glob_pattern_valid(p: Seq<char>) -> bool;

/// `glob::Pattern::new(p)` matches `name`.
pub uninterp spec fn glob_pattern_matches(p: Seq<char>, name: Seq<char>) -> bool;

/// A glob pattern compiled by the `glob` crate, with the text it was compiled from.
pub(crate) struct GlobPattern {
    source: String,
    compiled: glob::Pattern,
}

impl GlobPattern {
    /// The text the pattern was compiled from.
    pub(crate) closed spec fn source(&self) -> Seq<char> {
        self.source@
    }

    /// Compiles a glob pattern (`glob::Pattern::new`); `None` when the pattern is invalid.
    #[verifier::external_body]
    pub(crate) fn compile(pattern: &str) -> (r: Option<GlobPattern>)
        ensures
            r is Some <==> glob_pattern_valid(pattern@),
            r matches Some(g) ==> g.source() == pattern@,
    {
        match glob::Pattern::new(pattern) {
            Ok(compiled) => Some(GlobPattern { source: pattern.to_string(), compiled }),
            Err(_) => None,
        }
    }

    /// Whether the pattern matches a file name (`glob::Pattern::matches`).
    #[verifier::external_body]
    pub(crate) fn matches(&self, name: &str) -> (r: bool)
        ensures
            r == glob_pattern_matches(self.source(), name@),
    {
        self.compiled.matches(name)
    }
}

/// Whether a file name matches a glob pattern; an invalid pattern matches nothing.
pub open spec fn pattern_matches(pattern: Seq<char>, name: Seq<char>) -> bool {
    glob_pattern_valid(pattern) && glob_pattern_matches(pattern, name)
}

/// Whether `name` matches the glob `pattern`; an invalid pattern matches nothing.
pub fn matches_pattern(pattern: &str, file_name: &str) -> (r: bool)
    ensures
        r == pattern_matches(pattern@, file_name@),
{
    match GlobPattern::compile(pattern) {
        Some(p) => p.matches(file_name),
        None => false,
    }
}

/// The index of the first of the file names that matches the glob `pattern`; `None`
/// when none does.
pub fn first_matching_name(names: &Vec<String>, pattern: &str) -> (r: Option<usize>)
    ensures
        match r {
            Some(k) => k < names@.len() && pattern_matches(pattern@, names@[k as int]@) && forall|j: int|
                0 <= j < k ==> !pattern_matches(pattern@, (#[trigger] names@[j])@),
            None => forall|j: int| 0 <= j < names@.len() ==> !pattern_matches(pattern@, (#[trigger] names@[j])@),
        },
{
    let mut i: usize = 0;
    while i < names.len()
        invariant
            i <= names@.len(),
            forall|j: int| 0 <= j < i ==> !pattern_matches(pattern@, (#[trigger] names@[j])@),
        decreases names.len() - i,
    {
        if matches_pattern(pattern, names[i].as_str()) {
            return Some(i);
        }
        i += 1;
    }
    None
}

/// Where a stable sort by descending priority puts `x` among the sorted `s`:
/// after every mapping whose priority is at least that of `x`.
pub open spec fn priority_pos(s: Seq<AnalyzerMapping>, x: AnalyzerMapping) -> int
    decreases s.len(),
{
    if s.len() == 0 {
        0
    } else if s[0].priority < x.priority {
        0
    } else {
        1 + priority_pos(s.drop_first(), x)
    }
}

/// The mappings by descending priority, mappings of equal priority in their original
/// order (what a stable `sort_by` with the comparison reversed produces).
pub open spec fn sort_by_priority(s: Seq<AnalyzerMapping>) -> Seq<AnalyzerMapping>
    decreases s.len(),
{
    if s.len() == 0 {
        s
    } else {
        let prev = sort_by_priority(s.drop_last());
        prev.insert(priority_pos(prev, s.last()), s.last())
    }
}

/// The index of the first enabled mapping whose pattern matches `name`, if any.
pub open spec fn first_match(ms: Seq<AnalyzerMapping>, name: Seq<char>) -> Option<int>
    decreases ms.len(),
{
    if ms.len() == 0 {
        None
    } else if ms[0].enabled && pattern_matches(ms[0].pattern@, name) {
        Some(0)
    } else {
        match first_match(ms.drop_first(), name) {
            Some(i) => Some(i + 1),
            None => None,
        }
    }
}

/// The enabled mappings of `ms`, in order.
pub open spec fn enabled_mappings(ms: Seq<AnalyzerMapping>) -> Seq<AnalyzerMapping>
    decreases ms.len(),
{
    if ms.len() == 0 {
        seq![]
    } else {
        let prev = enabled_mappings(ms.drop_last());
        if ms.last().enabled {
            prev.push(ms.last())
        } else {
            prev
        }
    }
}

/// The index of the first mapping whose name or plugin name is `name`, if any.
pub open spec fn first_named(ms: Seq<AnalyzerMapping>, name: Seq<char>) -> Option<int>
    decreases ms.len(),
{
    if ms.len() == 0 {
        None
    } else if ms[0].name@ == name || ms[0].plugin@ == name {
        Some(0)
    } else {
        match first_named(ms.drop_first(), name) {
            Some(i) => Some(i + 1),
            None => None,
        }
    }
}

proof fn lemma_priority_pos(s: Seq<AnalyzerMapping>, x: AnalyzerMapping, p: int)
    requires
        0 <= p <= s.len(),
        forall|j: int| 0 <= j < p ==> !((#[trigger] s[j]).priority < x.priority),
        p == s.len() || s[p].priority < x.priority,
    ensures
        priority_pos(s, x) == p,
    decreases p,
{
    if p > 0 {
        assert forall|j: int| 0 <= j < p - 1 implies !((#[trigger] s.drop_first()[j]).priority
            < x.priority) by {
            assert(s.drop_first()[j] == s[j + 1]);
        }
        lemma_priority_pos(s.drop_first(), x, p - 1);
    }
}

/// Chooses the analyzer plugin for a file name from a list of mappings.
pub struct PluginSelector {
    mappings: Vec<AnalyzerMapping>,
}

impl PluginSelector {
    /// The mappings in the order they are tried.
    pub closed spec fn mappings_spec(&self) -> Seq<AnalyzerMapping> {
        self.mappings@
    }

    /// A selector over `mappings`, which are ordered by descending priority
    /// (equal priorities keep their order).
    pub fn new(mappings: Vec<AnalyzerMapping>) -> (r: Self)
        ensures
            r.mappings_spec() == sort_by_priority(mappings@),
    {
        let mut input = mappings;
        let ghost s = input@;
        let mut out: Vec<AnalyzerMapping> = Vec::new();
        let n = input.len();
        let mut i: usize = 0;
        while i < n
            invariant
                n == s.len(),
                i <= n,
                input@ == s.skip(i as int),
                out@ == sort_by_priority(s.take(i as int)),
            decreases n - i,
        {
            let x = input.remove(0);
            assert(x == s[i as int]);
            assert(input@ == s.skip(i + 1));
            let mut p: usize = 0;
            while p < out.len() && !(out[p].priority < x.priority)
                invariant
                    p <= out@.len(),
                    forall|j: int| 0 <= j < p ==> !((#[trigger] out@[j]).priority < x.priority),
                decreases out@.len() - p,
            {
                p += 1;
            }
            proof {
                lemma_priority_pos(out@, x, p as int);
                assert(s.take(i + 1).drop_last() == s.take(i as int));
                assert(s.take(i + 1).last() == x);
            }
            out.insert(p, x);
            i += 1;
        }
        assert(s.take(n as int) == s);
        PluginSelector { mappings: out }
    }

    /// The first enabled mapping, in priority order, whose glob pattern matches the file name.
    pub fn select_plugin(&self, file_name: &str) -> (r: Option<&AnalyzerMapping>)
        ensures
            match first_match(self.mappings_spec(), file_name@) {
                Some(i) => r == Some(&self.mappings_spec()[i]),
                None => r is None,
            },
    {
        let mut i: usize = 0;
        assert(self.mappings@.skip(0) == self.mappings@);
        while i < self.mappings.len()
            invariant
                i <= self.mappings@.len(),
                first_match(self.mappings@, file_name@) == (match first_match(
                    self.mappings@.skip(i as int),
                    file_name@,
                ) {
                    Some(j) => Some(j + i),
                    None => None,
                }),
            decreases self.mappings.len() - i,
        {
            let m = &self.mappings[i];
            let ghost rest = self.mappings@.skip(i as int);
            assert(rest[0] == self.mappings@[i as int]);
            assert(rest.drop_first() == self.mappings@.skip(i + 1));
            if m.enabled && matches_pattern(m.pattern.as_str(), file_name) {
                return Some(m);
            }
            i += 1;
        }
        None
    }

    /// The enabled mappings, in priority order.
    pub fn list_enabled(&self) -> (r: Vec<&AnalyzerMapping>)
        ensures
            r@.len() == enabled_mappings(self.mappings_spec()).len(),
            forall|i: int|
                0 <= i < r@.len() ==> *r@[i] == enabled_mappings(self.mappings_spec())[i],
    {
        let mut r: Vec<&AnalyzerMapping> = Vec::new();
        let mut i: usize = 0;
        while i < self.mappings.len()
            invariant
                i <= self.mappings@.len(),
                r@.len() == enabled_mappings(self.mappings@.take(i as int)).len(),
                forall|k: int|
                    0 <= k < r@.len() ==> *r@[k] == enabled_mappings(self.mappings@.take(i as int))[k],
            decreases self.mappings.len() - i,
        {
            let ghost prev = r@;
            proof {
                let t = self.mappings@.take(i + 1);
                assert(t.drop_last() == self.mappings@.take(i as int));
                assert(t.last() == self.mappings@[i as int]);
            }
            if self.mappings[i].enabled {
                r.push(&self.mappings[i]);
                proof {
                    assert forall|k: int| 0 <= k < r@.len() implies *r@[k] == enabled_mappings(
                        self.mappings@.take(i + 1),
                    )[k] by {
                        if k < prev.len() {
                            assert(r@[k] == prev[k]);
                        }
                    }
                }
            }
            i += 1;
        }
        assert(self.mappings@.take(i as int) == self.mappings@);
        r
    }

    /// The first mapping whose name or plugin name is `name`.
    pub fn find_by_name(&self, name: &str) -> (r: Option<&AnalyzerMapping>)
        ensures
            match first_named(self.mappings_spec(), name@) {
                Some(i) => r == Some(&self.mappings_spec()[i]),
                None => r is None,
            },
    {
        let mut i: usize = 0;
        assert(self.mappings@.skip(0) == self.mappings@);
        while i < self.mappings.len()
            invariant
                i <= self.mappings@.len(),
                first_named(self.mappings@, name@) == (match first_named(
                    self.mappings@.skip(i as int),
                    name@,
                ) {
                    Some(j) => Some(j + i),
                    None => None,
                }),
            decreases self.mappings.len() - i,
        {
            let m = &self.mappings[i];
            let ghost rest = self.mappings@.skip(i as int);
            assert(rest[0] == self.mappings@[i as int]);
            assert(rest.drop_first() == self.mappings@.skip(i + 1));
            if str_eq(m.name.as_str(), name) || str_eq(m.plugin.as_str(), name) {
                return Some(m);
            }
            i += 1;
        }
        None
    }

    /// All mappings, in priority order.
    pub fn mappings(&self) -> (r: &[AnalyzerMapping])
        ensures
            r@ == self.mappings_spec(),
    {
        self.mappings.as_slice()
    }
}


// ---------------------------------------------------------------------------
// Laws of plugin selection
// ---------------------------------------------------------------------------

proof fn lemma_priority_pos_props(s: Seq<AnalyzerMapping>, x: AnalyzerMapping)
    ensures
        0 <= priority_pos(s, x) <= s.len(),
        forall|j: int| 0 <= j < priority_pos(s, x) ==> x.priority <= (#[trigger] s[j]).priority,
        priority_pos(s, x) < s.len() ==> s[priority_pos(s, x)].priority < x.priority,
    decreases s.len(),
{
    if s.len() > 0 && !(s[0].priority < x.priority) {
        let d = s.drop_first();
        lemma_priority_pos_props(d, x);
        assert forall|j: int| 0 <= j < priority_pos(s, x) implies x.priority <= (#[trigger] s[j]).priority by {
            if j > 0 {
                assert(s[j] == d[j - 1]);
            }
        }
        if priority_pos(s, x) < s.len() {
            assert(s[priority_pos(s, x)] == d[priority_pos(d, x)]);
        }
    }
}

/// Mappings in descending order of priority.
pub open spec fn by_descending_priority(s: Seq<AnalyzerMapping>) -> bool {
    forall|i: int, j: int| 0 <= i < j < s.len() ==> (#[trigger] s[j]).priority <= (#[trigger] s[i]).priority
}

proof fn lemma_sort_by_priority(s: Seq<AnalyzerMapping>)
    ensures
        by_descending_priority(sort_by_priority(s)),
        sort_by_priority(s).to_multiset() == s.to_multiset(),
        sort_by_priority(s).len() == s.len(),
    decreases s.len(),
{
    if s.len() > 0 {
        let ps = s.drop_last();
        let prev = sort_by_priority(ps);
        let x = s.last();
        lemma_sort_by_priority(ps);
        lemma_priority_pos_props(prev, x);
        let p = priority_pos(prev, x);
        let out = prev.insert(p, x);
        assert(out == sort_by_priority(s));
        prev.insert_ensures(p, x);
        assert forall|i: int, j: int| 0 <= i < j < out.len() implies (#[trigger] out[j]).priority <= (
        #[trigger] out[i]).priority by {
            if j < p {
                assert(out[i] == prev[i]);
                assert(out[j] == prev[j]);
            } else if j == p {
                assert(out[i] == prev[i]);
            } else if i < p {
                assert(out[i] == prev[i]);
                assert(out[j] == prev[j - 1]);
            } else if i == p {
                assert(out[j] == prev[j - 1]);
                if p < j - 1 {
                    assert(prev[j - 1].priority <= prev[p].priority);
                }
            } else {
                assert(out[i] == prev[i - 1]);
                assert(out[j] == prev[j - 1]);
            }
        }
        vstd::seq_lib::to_multiset_insert(prev, p, x);
        assert(s =~= ps.push(x));
        vstd::seq_lib::to_multiset_build(ps, x);
    }
}

/// A mapping that can handle the file `name`: enabled, and its pattern matches.
pub open spec fn handles(m: AnalyzerMapping, name: Seq<char>) -> bool {
    m.enabled && pattern_matches(m.pattern@, name)
}

proof fn lemma_first_match(ms: Seq<AnalyzerMapping>, name: Seq<char>)
    ensures
        match first_match(ms, name) {
            Some(i) => 0 <= i < ms.len() && handles(ms[i], name) && forall|k: int|
                0 <= k < i ==> !handles(#[trigger] ms[k], name),
            None => forall|k: int| 0 <= k < ms.len() ==> !handles(#[trigger] ms[k], name),
        },
    decreases ms.len(),
{
    if ms.len() > 0 && !handles(ms[0], name) {
        let d = ms.drop_first();
        lemma_first_match(d, name);
        match first_match(d, name) {
            Some(i) => {
                assert(ms[i + 1] == d[i]);
                assert forall|k: int| 0 <= k < i + 1 implies !handles(#[trigger] ms[k], name) by {
                    if k > 0 {
                        assert(ms[k] == d[k - 1]);
                    }
                }
            },
            None => {
                assert forall|k: int| 0 <= k < ms.len() implies !handles(#[trigger] ms[k], name) by {
                    if k > 0 {
                        assert(ms[k] == d[k - 1]);
                    }
                }
            },
        }
    }
}

/// A selector picks, for a file, an enabled mapping whose pattern matches it and
/// whose priority no other such mapping exceeds; it picks none only when no enabled
/// mapping matches.
pub proof fn lemma_selection_has_top_priority(mappings: Seq<AnalyzerMapping>, name: Seq<char>)
    ensures
        match first_match(sort_by_priority(mappings), name) {
            Some(i) => {
                let chosen = sort_by_priority(mappings)[i];
                &&& mappings.contains(chosen)
                &&& handles(chosen, name)
                &&& forall|k: int|
                    0 <= k < mappings.len() && handles(#[trigger] mappings[k], name) ==> mappings[k].priority
                        <= chosen.priority
            },
            None => forall|k: int| 0 <= k < mappings.len() ==> !handles(#[trigger] mappings[k], name),
        },
{
    let ms = sort_by_priority(mappings);
    lemma_sort_by_priority(mappings);
    lemma_first_match(ms, name);
    match first_match(ms, name) {
        Some(i) => {
            let chosen = ms[i];
            assert(ms.contains(chosen));
            vstd::seq_lib::to_multiset_contains(ms, chosen);
            vstd::seq_lib::to_multiset_contains(mappings, chosen);
            assert forall|k: int| 0 <= k < mappings.len() && handles(#[trigger] mappings[k], name) implies mappings[k].priority
                <= chosen.priority by {
                let y = mappings[k];
                assert(mappings.contains(y));
                vstd::seq_lib::to_multiset_contains(mappings, y);
                vstd::seq_lib::to_multiset_contains(ms, y);
                let m = choose|m: int| 0 <= m < ms.len() && ms[m] == y;
                if m < i {
                    assert(!handles(ms[m], name));
                } else if m > i {
                    assert(ms[m].priority <= ms[i].priority);
                }
            }
        },
        None => {
            assert forall|k: int| 0 <= k < mappings.len() implies !handles(#[trigger] mappings[k], name) by {
                let y = mappings[k];
                assert(mappings.contains(y));
                vstd::seq_lib::to_multiset_contains(mappings, y);
                vstd::seq_lib::to_multiset_contains(ms, y);
                let m = choose|m: int| 0 <= m < ms.len() && ms[m] == y;
                assert(!handles(ms[m], name));
            }
        },
    }
}
} // verus!
