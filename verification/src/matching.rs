//! Match rules: atomic conditions on a request's path or headers, their
//! conjunctions (AndGroups) and the per-tenant disjunction of those
//! (the RuleSet).
//!
//! Every comparison is case-sensitive and bytewise, header names included.
//! Regex conditions run an unanchored search of a pattern that was compiled
//! when the rule was built, never on the request path.

use vstd::prelude::*;

use crate::pattern::{regex_compiles, regex_found, CompiledPattern, RegexCompileError};
use crate::text::{is_byte_prefix, str_eq, str_starts_with};

verus! {

/// How a pattern is compared against a request: full equality, byte prefix,
/// or an unanchored regex search.
#[derive(Clone, Copy, PartialEq, Eq, Structural, Debug)]
pub enum MatchType {
    ExactLookup,
    PrefixLookup,
    RegexLookup,
}

impl Default for MatchType {
    /// The default comparison is full equality.
    fn default() -> (r: Self)
        ensures
            r == MatchType::ExactLookup,
    {
        MatchType::ExactLookup
    }
}

/// The mathematical content of a [`MatchPath`]: its pattern and comparison.
pub struct PathRuleView {
    pub path: Seq<char>,
    pub match_type: MatchType,
}

/// The mathematical content of a [`MatchHeader`].
pub struct HeaderRuleView {
    pub name: Seq<char>,
    pub value: Seq<char>,
    pub match_type: MatchType,
}

/// The mathematical content of a [`MatchRule`].
pub enum RuleView {
    Path(PathRuleView),
    Header(HeaderRuleView),
}

/// Whether a path condition hits the request's path-and-query string.
pub open spec fn path_rule_hit(p: PathRuleView, query: Seq<char>) -> bool {
    match p.match_type {
        MatchType::ExactLookup => p.path == query,
        MatchType::PrefixLookup => is_byte_prefix(p.path, query),
        MatchType::RegexLookup => regex_found(p.path, query),
    }
}

/// Whether a header condition hits one header, given as its name and value.
/// Names compare bytewise, exactly as values do.
pub open spec fn header_rule_hit(h: HeaderRuleView, name: Seq<char>, value: Seq<char>) -> bool {
    match h.match_type {
        MatchType::ExactLookup => h.name == name && h.value == value,
        MatchType::PrefixLookup => h.name == name && is_byte_prefix(h.value, value),
        MatchType::RegexLookup => regex_found(h.name, name) && regex_found(h.value, value),
    }
}

/// A condition on the request's path-and-query string.
#[derive(Debug)]
pub struct MatchPath {
    path: String,
    match_type: MatchType,
    compiled: Option<CompiledPattern>,
}

impl View for MatchPath {
    type V = PathRuleView;

    closed spec fn view(&self) -> PathRuleView {
        PathRuleView { path: self.path@, match_type: self.match_type }
    }
}

impl MatchPath {
    #[verifier::type_invariant]
    spec fn wf(self) -> bool {
        self.match_type is RegexLookup ==> (self.compiled matches Some(c)
            && c.pattern_view() == self.path@)
    }

    /// Builds the condition, compiling `path` when it is a regex pattern;
    /// construction fails exactly on a regex pattern that does not compile.
    pub fn new(path: String, match_type: MatchType) -> (r: Result<MatchPath, RegexCompileError>)
        ensures
            r is Ok <==> (match_type is RegexLookup ==> regex_compiles(path@)),
            r matches Ok(m) ==> m@ == (PathRuleView { path: path@, match_type }),
            r matches Err(e) ==> e.pattern@ == path@,
    {
        if let MatchType::RegexLookup = match_type {
            match CompiledPattern::compile(path.clone()) {
                Ok(c) => Ok(MatchPath { path, match_type, compiled: Some(c) }),
                Err(e) => Err(e),
            }
        } else {
            Ok(MatchPath { path, match_type, compiled: None })
        }
    }

    /// Whether this condition hits the request path-and-query `query`.
    pub fn is_hit(&self, query: &str) -> (r: bool)
        ensures
            r == path_rule_hit(self@, query@),
    {
        match self.match_type {
            MatchType::PrefixLookup => str_starts_with(query, self.path.as_str()),
            MatchType::RegexLookup => {
                proof {
                    use_type_invariant(self);
                }
                if let Some(c) = &self.compiled {
                    c.is_match(query)
                } else {
                    false
                }
            },
            MatchType::ExactLookup => str_eq(self.path.as_str(), query),
        }
    }
}

/// A condition on one of the request's headers.
#[derive(Debug)]
pub struct MatchHeader {
    name: String,
    value: String,
    match_type: MatchType,
    compiled_name: Option<CompiledPattern>,
    compiled_value: Option<CompiledPattern>,
}

impl View for MatchHeader {
    type V = HeaderRuleView;

    closed spec fn view(&self) -> HeaderRuleView {
        HeaderRuleView { name: self.name@, value: self.value@, match_type: self.match_type }
    }
}

impl MatchHeader {
    #[verifier::type_invariant]
    spec fn wf(self) -> bool {
        self.match_type is RegexLookup ==> {
            &&& self.compiled_name matches Some(c) && c.pattern_view() == self.name@
            &&& self.compiled_value matches Some(c) && c.pattern_view() == self.value@
        }
    }

    /// Builds the condition, compiling `name` and `value` when they are
    /// regex patterns; construction fails exactly on a pattern that does not
    /// compile, reporting the first offending pattern.
    pub fn new(name: String, value: String, match_type: MatchType) -> (r: Result<
        MatchHeader,
        RegexCompileError,
    >)
        ensures
            r is Ok <==> (match_type is RegexLookup ==> (regex_compiles(name@) && regex_compiles(
                value@,
            ))),
            r matches Ok(m) ==> m@ == (HeaderRuleView { name: name@, value: value@, match_type }),
            r matches Err(e) ==> e.pattern@ == (if !regex_compiles(name@) {
                name@
            } else {
                value@
            }),
    {
        if let MatchType::RegexLookup = match_type {
            let cn = match CompiledPattern::compile(name.clone()) {
                Ok(c) => c,
                Err(e) => {
                    return Err(e);
                },
            };
            let cv = match CompiledPattern::compile(value.clone()) {
                Ok(c) => c,
                Err(e) => {
                    return Err(e);
                },
            };
            Ok(
                MatchHeader {
                    name,
                    value,
                    match_type,
                    compiled_name: Some(cn),
                    compiled_value: Some(cv),
                },
            )
        } else {
            Ok(MatchHeader { name, value, match_type, compiled_name: None, compiled_value: None })
        }
    }

    /// Whether this condition hits one header of the request, given as its
    /// `name` and decoded `value`.
    pub fn is_hit(&self, name: &str, value: &str) -> (r: bool)
        ensures
            r == header_rule_hit(self@, name@, value@),
    {
        match self.match_type {
            MatchType::PrefixLookup => str_eq(self.name.as_str(), name) && str_starts_with(
                value,
                self.value.as_str(),
            ),
            MatchType::RegexLookup => {
                proof {
                    use_type_invariant(self);
                }
                let name_found = if let Some(c) = &self.compiled_name {
                    c.is_match(name)
                } else {
                    false
                };
                let value_found = if let Some(c) = &self.compiled_value {
                    c.is_match(value)
                } else {
                    false
                };
                name_found && value_found
            },
            MatchType::ExactLookup => str_eq(self.name.as_str(), name) && str_eq(
                self.value.as_str(),
                value,
            ),
        }
    }
}

/// One atomic condition: on the path or on a header.
#[derive(Debug)]
pub enum MatchRule {
    Path(MatchPath),
    Header(MatchHeader),
}

impl View for MatchRule {
    type V = RuleView;

    open spec fn view(&self) -> RuleView {
        match self {
            MatchRule::Path(p) => RuleView::Path(p@),
            MatchRule::Header(h) => RuleView::Header(h@),
        }
    }
}

/// A read-only view of one inbound request: its path-and-query string and
/// its headers as (name, value) pairs, in order, one pair per header line.
/// A header whose value does not decode to a string is left out by the
/// caller, which makes every header condition treat it as non-matching.
#[derive(Debug)]
pub struct GefyraRequest {
    pub path_and_query: String,
    pub headers: Vec<(String, String)>,
}

/// The mathematical content of a [`GefyraRequest`].
pub struct RequestView {
    pub path_and_query: Seq<char>,
    pub headers: Seq<(Seq<char>, Seq<char>)>,
}

impl View for GefyraRequest {
    type V = RequestView;

    open spec fn view(&self) -> RequestView {
        RequestView {
            path_and_query: self.path_and_query@,
            headers: self.headers@.map_values(|h: (String, String)| (h.0@, h.1@)),
        }
    }
}

/// Whether an atomic condition hits the request: a path condition is applied
/// to the path-and-query string, a header condition to every header present,
/// hitting when at least one header satisfies it.
pub open spec fn rule_hit(r: RuleView, req: RequestView) -> bool {
    match r {
        RuleView::Path(p) => path_rule_hit(p, req.path_and_query),
        RuleView::Header(h) => exists|i: int|
            #![trigger req.headers[i]]
            0 <= i < req.headers.len() && header_rule_hit(h, req.headers[i].0, req.headers[i].1),
    }
}

/// Whether a conjunction of conditions hits: all must hit, so a group with
/// no conditions is vacuously true.
pub open spec fn and_hit(rules: Seq<RuleView>, req: RequestView) -> bool {
    forall|i: int| #![trigger rules[i]] 0 <= i < rules.len() ==> rule_hit(rules[i], req)
}

/// Whether a disjunction of AndGroups hits: any may hit, so a rule set with
/// no groups is vacuously false.
pub open spec fn or_hit(groups: Seq<Seq<RuleView>>, req: RequestView) -> bool {
    exists|i: int| #![trigger groups[i]] 0 <= i < groups.len() && and_hit(groups[i], req)
}

/// A conjunction of atomic conditions: hits a request exactly when every
/// condition hits it.
#[derive(Debug)]
pub struct MatchAndCondition {
    pub and_match: Vec<MatchRule>,
}

impl View for MatchAndCondition {
    type V = Seq<RuleView>;

    open spec fn view(&self) -> Seq<RuleView> {
        self.and_match@.map_values(|r: MatchRule| r@)
    }
}

/// Whether one header condition hits any header of the request.
fn any_header_hit(h: &MatchHeader, req: &GefyraRequest) -> (r: bool)
    ensures
        r == exists|i: int|
            #![trigger req@.headers[i]]
            0 <= i < req@.headers.len() && header_rule_hit(
                h@,
                req@.headers[i].0,
                req@.headers[i].1,
            ),
{
    let n = req.headers.len();
    let mut i: usize = 0;
    while i < n
        invariant
            i <= n,
            n == req.headers.len(),
            req@.headers.len() == n,
            forall|j: int|
                #![trigger req@.headers[j]]
                0 <= j < i ==> !header_rule_hit(h@, req@.headers[j].0, req@.headers[j].1),
        decreases n - i,
    {
        let pair = &req.headers[i];
        if h.is_hit(pair.0.as_str(), pair.1.as_str()) {
            assert(req@.headers[i as int] == (req.headers@[i as int].0@, req.headers@[i as int].1@));
            return true;
        }
        assert(req@.headers[i as int] == (req.headers@[i as int].0@, req.headers@[i as int].1@));
        i += 1;
    }
    false
}

impl MatchAndCondition {
    /// Whether every condition of this group hits the request. The scan
    /// stops at the first miss, which never changes the result.
    pub fn is_hit(&self, req: &GefyraRequest) -> (r: bool)
        ensures
            r == and_hit(self@, req@),
    {
        let n = self.and_match.len();
        let mut i: usize = 0;
        while i < n
            invariant
                i <= n,
                n == self.and_match.len(),
                self@.len() == n,
                forall|j: int| #![trigger self@[j]] 0 <= j < i ==> rule_hit(self@[j], req@),
            decreases n - i,
        {
            let hit = match &self.and_match[i] {
                MatchRule::Path(p) => p.is_hit(req.path_and_query.as_str()),
                MatchRule::Header(h) => any_header_hit(h, req),
            };
            assert(self@[i as int] == self.and_match@[i as int]@);
            if !hit {
                return false;
            }
            i += 1;
        }
        true
    }
}

/// A disjunction of AndGroups: the per-tenant rule set, hitting a request
/// exactly when at least one group hits it.
#[derive(Debug)]
pub struct MatchOrCondition {
    pub or_rules: Vec<MatchAndCondition>,
}

impl View for MatchOrCondition {
    type V = Seq<Seq<RuleView>>;

    open spec fn view(&self) -> Seq<Seq<RuleView>> {
        self.or_rules@.map_values(|c: MatchAndCondition| c@)
    }
}

impl MatchOrCondition {
    /// Whether any group of this rule set hits the request. The scan stops
    /// at the first hit, which never changes the result.
    pub fn is_hit(&self, req: &GefyraRequest) -> (r: bool)
        ensures
            r == or_hit(self@, req@),
    {
        let n = self.or_rules.len();
        let mut i: usize = 0;
        while i < n
            invariant
                i <= n,
                n == self.or_rules.len(),
                self@.len() == n,
                forall|j: int| #![trigger self@[j]] 0 <= j < i ==> !and_hit(self@[j], req@),
            decreases n - i,
        {
            let hit = self.or_rules[i].is_hit(req);
            assert(self@[i as int] == self.or_rules@[i as int]@);
            if hit {
                return true;
            }
            i += 1;
        }
        false
    }
}

/// An AndGroup of two conditions hits exactly when both conditions hit:
/// flipping whether either condition is satisfied flips the group.
pub proof fn lemma_and_group_pair(a: RuleView, b: RuleView, req: RequestView)
    ensures
        and_hit(seq![a, b], req) <==> (rule_hit(a, req) && rule_hit(b, req)),
{
    let s = seq![a, b];
    assert(s[0] == a);
    assert(s[1] == b);
    if rule_hit(a, req) && rule_hit(b, req) {
        assert forall|i: int| #![trigger s[i]] 0 <= i < s.len() implies rule_hit(s[i], req) by {
            if i == 0 {
            } else {
                assert(i == 1);
            }
        }
    }
}

/// A RuleSet of two AndGroups hits exactly when at least one of the two
/// groups hits: a request satisfying only the second group is still a hit.
pub proof fn lemma_rule_set_pair(a: Seq<RuleView>, b: Seq<RuleView>, req: RequestView)
    ensures
        or_hit(seq![a, b], req) <==> (and_hit(a, req) || and_hit(b, req)),
{
    let s = seq![a, b];
    assert(s[0] == a);
    assert(s[1] == b);
    if and_hit(a, req) {
        assert(or_hit(s, req));
    }
    if and_hit(b, req) {
        assert(or_hit(s, req));
    }
}

/// A rule set with no AndGroups never hits any request.
pub proof fn lemma_empty_rule_set_never_hits(req: RequestView)
    ensures
        !or_hit(Seq::<Seq<RuleView>>::empty(), req),
{
}

} // verus!
