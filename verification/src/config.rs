//! Tenant construction from a configuration snapshot.
//!
//! The configuration reaches the core as a [`ConfigValue`] tree, a plain
//! rendering of the YAML the proxy was started with: the caller turns the
//! parsed document into this shape and the core does all structural checks
//! here. A per-tenant mapping `tenantKey -> {endpoint, tls, sni, rules}` is
//! turned into [`GefyraClient`] values; any malformed entry fails the whole
//! build with a [`ConfigParseError`], so a partial routing table never goes
//! live.

use vstd::prelude::*;

use crate::matching::{
    HeaderRuleView, MatchAndCondition, MatchHeader, MatchOrCondition, MatchPath, MatchRule,
    MatchType, PathRuleView, RuleView,
};
use crate::pattern::regex_compiles;
use crate::text::str_eq;
use crate::upstream::{ClientView, GefyraClient, GefyraPeer, PeerView};

verus! {

/// A plain configuration value: what the core reads of the YAML document.
/// Scalars the schema never uses (numbers, tagged values) arrive as
/// [`ConfigValue::Other`] and fail the checks that expect another shape.
#[derive(Debug)]
pub enum ConfigValue {
    Null,
    Bool(bool),
    Str(String),
    List(Vec<ConfigValue>),
    Mapping(Vec<(ConfigValue, ConfigValue)>),
    Other,
}

/// The configuration fields a parse error can point at.
#[derive(Clone, Copy, PartialEq, Eq, Structural, Debug)]
pub enum ConfigField {
    /// The required `endpoint` string of a tenant entry.
    Endpoint,
    /// The optional `tls` boolean of a tenant entry.
    Tls,
    /// The optional `sni` string of a tenant entry.
    Sni,
    /// The required `rules` list of a tenant entry.
    Rules,
    /// One entry of the `rules` list.
    Rule,
    /// The required `match` list of a rule entry.
    Match,
    /// One entry of a `match` list.
    Condition,
    /// The object under a `matchPath` key.
    MatchPath,
    /// The object under a `matchHeader` key.
    MatchHeader,
    /// The required `path` string of a path condition.
    Path,
    /// The optional `type` string of a condition.
    Type,
    /// The required `name` string of a header condition.
    Name,
    /// The required `value` string of a header condition.
    Value,
}

/// Why a configuration snapshot was rejected. The whole build fails on the
/// first offending entry; nothing of the snapshot goes live.
#[derive(Debug)]
pub enum ConfigParseError {
    /// A tenant key is not a string.
    NonStringKey,
    /// The tenant entry is not a mapping.
    NotAMapping { key: String },
    /// A required field is absent.
    MissingField { key: String, field: ConfigField },
    /// A field is present but has the wrong shape.
    WrongType { key: String, field: ConfigField },
    /// A condition object's single key is neither `matchPath` nor
    /// `matchHeader`.
    UnknownRuleKind { key: String },
    /// A condition's `type` is none of `exact`, `prefix`, `regex`.
    UnknownMatchType { key: String, given: String },
    /// A regex condition's pattern does not compile.
    InvalidRegex { key: String, pattern: String },
    /// Two tenant entries carry the same key.
    DuplicateKey { key: String },
}

/// The mathematical content of a [`ConfigParseError`].
pub enum ParseErrorView {
    NonStringKey,
    NotAMapping { key: Seq<char> },
    MissingField { key: Seq<char>, field: ConfigField },
    WrongType { key: Seq<char>, field: ConfigField },
    UnknownRuleKind { key: Seq<char> },
    UnknownMatchType { key: Seq<char>, given: Seq<char> },
    InvalidRegex { key: Seq<char>, pattern: Seq<char> },
    DuplicateKey { key: Seq<char> },
}

impl View for ConfigParseError {
    type V = ParseErrorView;

    closed spec fn view(&self) -> ParseErrorView {
        match self {
            ConfigParseError::NonStringKey => ParseErrorView::NonStringKey,
            ConfigParseError::NotAMapping { key } => ParseErrorView::NotAMapping { key: key@ },
            ConfigParseError::MissingField { key, field } => ParseErrorView::MissingField {
                key: key@,
                field: *field,
            },
            ConfigParseError::WrongType { key, field } => ParseErrorView::WrongType {
                key: key@,
                field: *field,
            },
            ConfigParseError::UnknownRuleKind { key } => ParseErrorView::UnknownRuleKind {
                key: key@,
            },
            ConfigParseError::UnknownMatchType { key, given } => ParseErrorView::UnknownMatchType {
                key: key@,
                given: given@,
            },
            ConfigParseError::InvalidRegex { key, pattern } => ParseErrorView::InvalidRegex {
                key: key@,
                pattern: pattern@,
            },
            ConfigParseError::DuplicateKey { key } => ParseErrorView::DuplicateKey { key: key@ },
        }
    }
}

/// The value under the first entry of `entries` whose key is the string
/// `name`, if any: how a field is read out of a configuration mapping.
pub open spec fn spec_lookup(entries: Seq<(ConfigValue, ConfigValue)>, name: Seq<char>) -> Option<
    ConfigValue,
>
    decreases entries.len(),
{
    if entries.len() == 0 {
        None
    } else if entries[0].0 matches ConfigValue::Str(s) && s@ == name {
        Some(entries[0].1)
    } else {
        spec_lookup(entries.skip(1), name)
    }
}

/// Reads the field `name` out of a configuration mapping.
fn lookup<'a>(entries: &'a Vec<(ConfigValue, ConfigValue)>, name: &str) -> (r: Option<
    &'a ConfigValue,
>)
    ensures
        match r {
            Some(v) => spec_lookup(entries@, name@) == Some(*v),
            None => spec_lookup(entries@, name@) is None,
        },
{
    let n = entries.len();
    let mut i: usize = 0;
    proof {
        assert(entries@.skip(0) =~= entries@);
    }
    while i < n
        invariant
            i <= n,
            n == entries@.len(),
            spec_lookup(entries@, name@) == spec_lookup(entries@.skip(i as int), name@),
        decreases n - i,
    {
        proof {
            assert(entries@.skip(i as int)[0] == entries@[i as int]);
            assert(entries@.skip(i as int).skip(1) =~= entries@.skip(i as int + 1));
        }
        let hit = match &entries[i].0 {
            ConfigValue::Str(s) => str_eq(s.as_str(), name),
            _ => false,
        };
        if hit {
            return Some(&entries[i].1);
        }
        i += 1;
    }
    proof {
        assert(entries@.skip(n as int).len() == 0);
    }
    None
}

/// The comparison named by a `type` string: `exact`, `prefix` or `regex`.
pub open spec fn spec_match_type_of(name: Seq<char>) -> Option<MatchType> {
    if name == "exact"@ {
        Some(MatchType::ExactLookup)
    } else if name == "prefix"@ {
        Some(MatchType::PrefixLookup)
    } else if name == "regex"@ {
        Some(MatchType::RegexLookup)
    } else {
        None
    }
}

/// Reads a `type` string.
fn parse_match_type(name: &str) -> (r: Option<MatchType>)
    ensures
        r == spec_match_type_of(name@),
{
    if str_eq(name, "exact") {
        Some(MatchType::ExactLookup)
    } else if str_eq(name, "prefix") {
        Some(MatchType::PrefixLookup)
    } else if str_eq(name, "regex") {
        Some(MatchType::RegexLookup)
    } else {
        None
    }
}

/// The comparison a condition mapping `m` asks for: its optional `type`
/// field, read as a match type, absent meaning exact.
pub open spec fn spec_condition_type(
    key: Seq<char>,
    m: Seq<(ConfigValue, ConfigValue)>,
) -> Result<MatchType, ParseErrorView> {
    match spec_lookup(m, "type"@) {
        Option::None => Ok(MatchType::ExactLookup),
        Option::Some(tv) => match tv {
            ConfigValue::Str(t) => match spec_match_type_of(t@) {
                Option::Some(mt) => Ok(mt),
                Option::None => Err(ParseErrorView::UnknownMatchType { key, given: t@ }),
            },
            _ => Err(ParseErrorView::WrongType { key, field: ConfigField::Type }),
        },
    }
}

/// What the object under a `matchPath` key of tenant `key` means: a path
/// condition with a required `path` string and an optional `type`, whose
/// pattern must compile when the type is `regex`.
pub open spec fn spec_parse_path_rule(key: Seq<char>, v: ConfigValue) -> Result<
    RuleView,
    ParseErrorView,
> {
    match v {
        ConfigValue::Mapping(m) => match spec_lookup(m@, "path"@) {
            Option::None => Err(ParseErrorView::MissingField { key, field: ConfigField::Path }),
            Option::Some(pv) => match pv {
                ConfigValue::Str(p) => match spec_condition_type(key, m@) {
                    Ok(mt) => if mt is RegexLookup && !regex_compiles(p@) {
                        Err(ParseErrorView::InvalidRegex { key, pattern: p@ })
                    } else {
                        Ok(RuleView::Path(PathRuleView { path: p@, match_type: mt }))
                    },
                    Err(e) => Err(e),
                },
                _ => Err(ParseErrorView::WrongType { key, field: ConfigField::Path }),
            },
        },
        _ => Err(ParseErrorView::WrongType { key, field: ConfigField::MatchPath }),
    }
}

/// What the object under a `matchHeader` key of tenant `key` means: a
/// header condition with required `name` and `value` strings and an optional
/// `type`; for type `regex` the name pattern must compile, then the value
/// pattern.
pub open spec fn spec_parse_header_rule(key: Seq<char>, v: ConfigValue) -> Result<
    RuleView,
    ParseErrorView,
> {
    match v {
        ConfigValue::Mapping(m) => match spec_lookup(m@, "name"@) {
            Option::None => Err(ParseErrorView::MissingField { key, field: ConfigField::Name }),
            Option::Some(nv) => match nv {
                ConfigValue::Str(n) => match spec_lookup(m@, "value"@) {
                    Option::None => Err(
                        ParseErrorView::MissingField { key, field: ConfigField::Value },
                    ),
                    Option::Some(vv) => match vv {
                        ConfigValue::Str(val) => match spec_condition_type(key, m@) {
                            Ok(mt) => if mt is RegexLookup && !regex_compiles(n@) {
                                Err(ParseErrorView::InvalidRegex { key, pattern: n@ })
                            } else if mt is RegexLookup && !regex_compiles(val@) {
                                Err(ParseErrorView::InvalidRegex { key, pattern: val@ })
                            } else {
                                Ok(
                                    RuleView::Header(
                                        HeaderRuleView {
                                            name: n@,
                                            value: val@,
                                            match_type: mt,
                                        },
                                    ),
                                )
                            },
                            Err(e) => Err(e),
                        },
                        _ => Err(ParseErrorView::WrongType { key, field: ConfigField::Value }),
                    },
                },
                _ => Err(ParseErrorView::WrongType { key, field: ConfigField::Name }),
            },
        },
        _ => Err(ParseErrorView::WrongType { key, field: ConfigField::MatchHeader }),
    }
}

/// What one entry of a `match` list means: a mapping with exactly one key,
/// `matchPath` or `matchHeader`, holding the condition object.
pub open spec fn spec_parse_condition(key: Seq<char>, v: ConfigValue) -> Result<
    RuleView,
    ParseErrorView,
> {
    match v {
        ConfigValue::Mapping(m) => if m@.len() != 1 {
            Err(ParseErrorView::WrongType { key, field: ConfigField::Condition })
        } else {
            match m@[0].0 {
                ConfigValue::Str(s) => if s@ == "matchPath"@ {
                    spec_parse_path_rule(key, m@[0].1)
                } else if s@ == "matchHeader"@ {
                    spec_parse_header_rule(key, m@[0].1)
                } else {
                    Err(ParseErrorView::UnknownRuleKind { key })
                },
                _ => Err(ParseErrorView::WrongType { key, field: ConfigField::Condition }),
            }
        },
        _ => Err(ParseErrorView::WrongType { key, field: ConfigField::Condition }),
    }
}

/// Reads the optional `type` field of a condition mapping.
fn parse_condition_type(key: &String, m: &Vec<(ConfigValue, ConfigValue)>) -> (r: Result<
    MatchType,
    ConfigParseError,
>)
    ensures
        r matches Ok(mt) ==> spec_condition_type(key@, m@) == Ok::<MatchType, ParseErrorView>(mt),
        r matches Err(e) ==> spec_condition_type(key@, m@) == Err::<MatchType, ParseErrorView>(e@),
{
    match lookup(m, "type") {
        Option::None => Ok(MatchType::ExactLookup),
        Option::Some(tv) => match tv {
            ConfigValue::Str(t) => match parse_match_type(t.as_str()) {
                Option::Some(mt) => Ok(mt),
                Option::None => Err(
                    ConfigParseError::UnknownMatchType { key: key.clone(), given: t.clone() },
                ),
            },
            _ => Err(ConfigParseError::WrongType { key: key.clone(), field: ConfigField::Type }),
        },
    }
}

/// Reads the object under a `matchPath` key.
fn parse_path_rule(key: &String, v: &ConfigValue) -> (r: Result<MatchRule, ConfigParseError>)
    ensures
        r matches Ok(rule) ==> spec_parse_path_rule(key@, *v) == Ok::<RuleView, ParseErrorView>(
            rule@,
        ),
        r matches Err(e) ==> spec_parse_path_rule(key@, *v) == Err::<RuleView, ParseErrorView>(e@),
{
    match v {
        ConfigValue::Mapping(m) => match lookup(m, "path") {
            Option::None => Err(
                ConfigParseError::MissingField { key: key.clone(), field: ConfigField::Path },
            ),
            Option::Some(pv) => match pv {
                ConfigValue::Str(p) => match parse_condition_type(key, m) {
                    Ok(mt) => match MatchPath::new(p.clone(), mt) {
                        Ok(rule) => Ok(MatchRule::Path(rule)),
                        Err(err) => Err(
                            ConfigParseError::InvalidRegex { key: key.clone(), pattern: err.pattern },
                        ),
                    },
                    Err(e) => Err(e),
                },
                _ => Err(
                    ConfigParseError::WrongType { key: key.clone(), field: ConfigField::Path },
                ),
            },
        },
        _ => Err(ConfigParseError::WrongType { key: key.clone(), field: ConfigField::MatchPath }),
    }
}

/// Reads the object under a `matchHeader` key.
fn parse_header_rule(key: &String, v: &ConfigValue) -> (r: Result<MatchRule, ConfigParseError>)
    ensures
        r matches Ok(rule) ==> spec_parse_header_rule(key@, *v) == Ok::<RuleView, ParseErrorView>(
            rule@,
        ),
        r matches Err(e) ==> spec_parse_header_rule(key@, *v) == Err::<RuleView, ParseErrorView>(
            e@,
        ),
{
    match v {
        ConfigValue::Mapping(m) => match lookup(m, "name") {
            Option::None => Err(
                ConfigParseError::MissingField { key: key.clone(), field: ConfigField::Name },
            ),
            Option::Some(nv) => match nv {
                ConfigValue::Str(n) => match lookup(m, "value") {
                    Option::None => Err(
                        ConfigParseError::MissingField {
                            key: key.clone(),
                            field: ConfigField::Value,
                        },
                    ),
                    Option::Some(vv) => match vv {
                        ConfigValue::Str(val) => match parse_condition_type(key, m) {
                            Ok(mt) => match MatchHeader::new(n.clone(), val.clone(), mt) {
                                Ok(rule) => Ok(MatchRule::Header(rule)),
                                Err(err) => Err(
                                    ConfigParseError::InvalidRegex {
                                        key: key.clone(),
                                        pattern: err.pattern,
                                    },
                                ),
                            },
                            Err(e) => Err(e),
                        },
                        _ => Err(
                            ConfigParseError::WrongType {
                                key: key.clone(),
                                field: ConfigField::Value,
                            },
                        ),
                    },
                },
                _ => Err(
                    ConfigParseError::WrongType { key: key.clone(), field: ConfigField::Name },
                ),
            },
        },
        _ => Err(
            ConfigParseError::WrongType { key: key.clone(), field: ConfigField::MatchHeader },
        ),
    }
}

/// Reads one entry of a `match` list.
fn parse_condition(key: &String, v: &ConfigValue) -> (r: Result<MatchRule, ConfigParseError>)
    ensures
        r matches Ok(rule) ==> spec_parse_condition(key@, *v) == Ok::<RuleView, ParseErrorView>(
            rule@,
        ),
        r matches Err(e) ==> spec_parse_condition(key@, *v) == Err::<RuleView, ParseErrorView>(e@),
{
    match v {
        ConfigValue::Mapping(m) => if m.len() != 1 {
            Err(ConfigParseError::WrongType { key: key.clone(), field: ConfigField::Condition })
        } else {
            match &m[0].0 {
                ConfigValue::Str(s) => if str_eq(s.as_str(), "matchPath") {
                    parse_path_rule(key, &m[0].1)
                } else if str_eq(s.as_str(), "matchHeader") {
                    parse_header_rule(key, &m[0].1)
                } else {
                    Err(ConfigParseError::UnknownRuleKind { key: key.clone() })
                },
                _ => Err(
                    ConfigParseError::WrongType { key: key.clone(), field: ConfigField::Condition },
                ),
            }
        },
        _ => Err(ConfigParseError::WrongType { key: key.clone(), field: ConfigField::Condition }),
    }
}

/// What the tail of a `match` list means, from entry `i` on: every entry a
/// condition, kept in order, failing on the first malformed one.
pub open spec fn spec_parse_conditions(key: Seq<char>, cs: Seq<ConfigValue>, i: int) -> Result<
    Seq<RuleView>,
    ParseErrorView,
>
    decreases cs.len() - i,
{
    if i >= cs.len() {
        Ok(Seq::empty())
    } else {
        match spec_parse_condition(key, cs[i]) {
            Ok(rv) => match spec_parse_conditions(key, cs, i + 1) {
                Ok(rest) => Ok(seq![rv] + rest),
                Err(e) => Err(e),
            },
            Err(e) => Err(e),
        }
    }
}

/// Reads the tail of a `match` list, from entry `i` on.
fn parse_conditions(key: &String, cs: &Vec<ConfigValue>, i: usize) -> (r: Result<
    Vec<MatchRule>,
    ConfigParseError,
>)
    requires
        i <= cs@.len(),
    ensures
        r matches Ok(rules) ==> spec_parse_conditions(key@, cs@, i as int) == Ok::<
            Seq<RuleView>,
            ParseErrorView,
        >(rules@.map_values(|m: MatchRule| m@)),
        r matches Err(e) ==> spec_parse_conditions(key@, cs@, i as int) == Err::<
            Seq<RuleView>,
            ParseErrorView,
        >(e@),
    decreases cs@.len() - i,
{
    if i == cs.len() {
        let empty: Vec<MatchRule> = Vec::new();
        proof {
            assert(empty@.map_values(|m: MatchRule| m@) =~= Seq::<RuleView>::empty());
        }
        Ok(empty)
    } else {
        match parse_condition(key, &cs[i]) {
            Ok(rule) => match parse_conditions(key, cs, i + 1) {
                Ok(rest) => {
                    let ghost rest0 = rest@;
                    let ghost rulev = rule@;
                    let mut rules = rest;
                    rules.insert(0, rule);
                    proof {
                        assert(rules@.map_values(|m: MatchRule| m@) =~= seq![rulev]
                            + rest0.map_values(|m: MatchRule| m@));
                    }
                    Ok(rules)
                },
                Err(e) => Err(e),
            },
            Err(e) => Err(e),
        }
    }
}

/// What one entry of a `rules` list means: a mapping whose required `match`
/// field lists the conditions of one AndGroup.
pub open spec fn spec_parse_group(key: Seq<char>, v: ConfigValue) -> Result<
    Seq<RuleView>,
    ParseErrorView,
> {
    match v {
        ConfigValue::Mapping(m) => match spec_lookup(m@, "match"@) {
            Option::None => Err(ParseErrorView::MissingField { key, field: ConfigField::Match }),
            Option::Some(mv) => match mv {
                ConfigValue::List(cs) => spec_parse_conditions(key, cs@, 0),
                _ => Err(ParseErrorView::WrongType { key, field: ConfigField::Match }),
            },
        },
        _ => Err(ParseErrorView::WrongType { key, field: ConfigField::Rule }),
    }
}

/// Reads one entry of a `rules` list.
fn parse_group(key: &String, v: &ConfigValue) -> (r: Result<MatchAndCondition, ConfigParseError>)
    ensures
        r matches Ok(g) ==> spec_parse_group(key@, *v) == Ok::<Seq<RuleView>, ParseErrorView>(g@),
        r matches Err(e) ==> spec_parse_group(key@, *v) == Err::<Seq<RuleView>, ParseErrorView>(
            e@,
        ),
{
    match v {
        ConfigValue::Mapping(m) => match lookup(m, "match") {
            Option::None => Err(
                ConfigParseError::MissingField { key: key.clone(), field: ConfigField::Match },
            ),
            Option::Some(mv) => match mv {
                ConfigValue::List(cs) => match parse_conditions(key, cs, 0) {
                    Ok(rules) => Ok(MatchAndCondition { and_match: rules }),
                    Err(e) => Err(e),
                },
                _ => Err(
                    ConfigParseError::WrongType { key: key.clone(), field: ConfigField::Match },
                ),
            },
        },
        _ => Err(ConfigParseError::WrongType { key: key.clone(), field: ConfigField::Rule }),
    }
}

/// What the tail of a `rules` list means, from entry `i` on: every entry an
/// AndGroup, kept in order.
pub open spec fn spec_parse_groups(key: Seq<char>, gs: Seq<ConfigValue>, i: int) -> Result<
    Seq<Seq<RuleView>>,
    ParseErrorView,
>
    decreases gs.len() - i,
{
    if i >= gs.len() {
        Ok(Seq::empty())
    } else {
        match spec_parse_group(key, gs[i]) {
            Ok(g) => match spec_parse_groups(key, gs, i + 1) {
                Ok(rest) => Ok(seq![g] + rest),
                Err(e) => Err(e),
            },
            Err(e) => Err(e),
        }
    }
}

/// Reads the tail of a `rules` list, from entry `i` on.
fn parse_groups(key: &String, gs: &Vec<ConfigValue>, i: usize) -> (r: Result<
    Vec<MatchAndCondition>,
    ConfigParseError,
>)
    requires
        i <= gs@.len(),
    ensures
        r matches Ok(groups) ==> spec_parse_groups(key@, gs@, i as int) == Ok::<
            Seq<Seq<RuleView>>,
            ParseErrorView,
        >(groups@.map_values(|c: MatchAndCondition| c@)),
        r matches Err(e) ==> spec_parse_groups(key@, gs@, i as int) == Err::<
            Seq<Seq<RuleView>>,
            ParseErrorView,
        >(e@),
    decreases gs@.len() - i,
{
    if i == gs.len() {
        let empty: Vec<MatchAndCondition> = Vec::new();
        proof {
            assert(empty@.map_values(|c: MatchAndCondition| c@) =~= Seq::<Seq<RuleView>>::empty());
        }
        Ok(empty)
    } else {
        match parse_group(key, &gs[i]) {
            Ok(group) => match parse_groups(key, gs, i + 1) {
                Ok(rest) => {
                    let ghost rest0 = rest@;
                    let ghost groupv = group@;
                    let mut groups = rest;
                    groups.insert(0, group);
                    proof {
                        assert(groups@.map_values(|c: MatchAndCondition| c@) =~= seq![groupv]
                            + rest0.map_values(|c: MatchAndCondition| c@));
                    }
                    Ok(groups)
                },
                Err(e) => Err(e),
            },
            Err(e) => Err(e),
        }
    }
}

/// The optional `tls` field of a tenant mapping: absent, a boolean, or
/// malformed.
pub open spec fn spec_tls_field(key: Seq<char>, m: Seq<(ConfigValue, ConfigValue)>) -> Result<
    Option<bool>,
    ParseErrorView,
> {
    match spec_lookup(m, "tls"@) {
        Option::None => Ok(Option::None),
        Option::Some(tv) => match tv {
            ConfigValue::Bool(b) => Ok(Option::Some(b)),
            _ => Err(ParseErrorView::WrongType { key, field: ConfigField::Tls }),
        },
    }
}

/// The optional `sni` field of a tenant mapping: absent, a string, or
/// malformed.
pub open spec fn spec_sni_field(key: Seq<char>, m: Seq<(ConfigValue, ConfigValue)>) -> Result<
    Option<Seq<char>>,
    ParseErrorView,
> {
    match spec_lookup(m, "sni"@) {
        Option::None => Ok(Option::None),
        Option::Some(sv) => match sv {
            ConfigValue::Str(s) => Ok(Option::Some(s@)),
            _ => Err(ParseErrorView::WrongType { key, field: ConfigField::Sni }),
        },
    }
}

/// What one tenant entry means: a mapping with a required `endpoint`
/// string, optional `tls` and `sni` (defaulting to the proxy-wide values
/// handed in by the caller), and a required `rules` list.
pub open spec fn spec_parse_client(
    key: Seq<char>,
    v: ConfigValue,
    default_tls: bool,
    default_sni: Seq<char>,
) -> Result<ClientView, ParseErrorView> {
    match v {
        ConfigValue::Mapping(m) => match spec_lookup(m@, "endpoint"@) {
            Option::None => Err(ParseErrorView::MissingField { key, field: ConfigField::Endpoint }),
            Option::Some(ev) => match ev {
                ConfigValue::Str(addr) => match spec_tls_field(key, m@) {
                    Err(e) => Err(e),
                    Ok(tls_opt) => match spec_sni_field(key, m@) {
                        Err(e) => Err(e),
                        Ok(sni_opt) => match spec_lookup(m@, "rules"@) {
                            Option::None => Err(
                                ParseErrorView::MissingField { key, field: ConfigField::Rules },
                            ),
                            Option::Some(rv) => match rv {
                                ConfigValue::List(gs) => match spec_parse_groups(key, gs@, 0) {
                                    Ok(groups) => Ok(
                                        ClientView {
                                            key,
                                            peer: PeerView {
                                                address: addr@,
                                                use_tls: match tls_opt {
                                                    Option::Some(b) => b,
                                                    Option::None => default_tls,
                                                },
                                                sni: match sni_opt {
                                                    Option::Some(s) => s,
                                                    Option::None => default_sni,
                                                },
                                            },
                                            rules: groups,
                                        },
                                    ),
                                    Err(e) => Err(e),
                                },
                                _ => Err(
                                    ParseErrorView::WrongType { key, field: ConfigField::Rules },
                                ),
                            },
                        },
                    },
                },
                _ => Err(ParseErrorView::WrongType { key, field: ConfigField::Endpoint }),
            },
        },
        _ => Err(ParseErrorView::NotAMapping { key }),
    }
}

/// Reads one tenant entry.
fn parse_client(key: &String, v: &ConfigValue, default_tls: bool, default_sni: &String) -> (r:
    Result<GefyraClient, ConfigParseError>)
    ensures
        r matches Ok(c) ==> spec_parse_client(key@, *v, default_tls, default_sni@) == Ok::<
            ClientView,
            ParseErrorView,
        >(c@),
        r matches Err(e) ==> spec_parse_client(key@, *v, default_tls, default_sni@) == Err::<
            ClientView,
            ParseErrorView,
        >(e@),
{
    match v {
        ConfigValue::Mapping(m) => match lookup(m, "endpoint") {
            Option::None => Err(
                ConfigParseError::MissingField { key: key.clone(), field: ConfigField::Endpoint },
            ),
            Option::Some(ev) => match ev {
                ConfigValue::Str(addr) => {
                    let use_tls = match lookup(m, "tls") {
                        Option::None => default_tls,
                        Option::Some(tv) => match tv {
                            ConfigValue::Bool(b) => *b,
                            _ => {
                                return Err(
                                    ConfigParseError::WrongType {
                                        key: key.clone(),
                                        field: ConfigField::Tls,
                                    },
                                );
                            },
                        },
                    };
                    let sni = match lookup(m, "sni") {
                        Option::None => default_sni.clone(),
                        Option::Some(sv) => match sv {
                            ConfigValue::Str(s) => s.clone(),
                            _ => {
                                return Err(
                                    ConfigParseError::WrongType {
                                        key: key.clone(),
                                        field: ConfigField::Sni,
                                    },
                                );
                            },
                        },
                    };
                    match lookup(m, "rules") {
                        Option::None => Err(
                            ConfigParseError::MissingField {
                                key: key.clone(),
                                field: ConfigField::Rules,
                            },
                        ),
                        Option::Some(rv) => match rv {
                            ConfigValue::List(gs) => match parse_groups(key, gs, 0) {
                                Ok(groups) => Ok(
                                    GefyraClient {
                                        key: key.clone(),
                                        peer: GefyraPeer {
                                            address: addr.clone(),
                                            use_tls,
                                            sni,
                                        },
                                        matching_rules: MatchOrCondition { or_rules: groups },
                                    },
                                ),
                                Err(e) => Err(e),
                            },
                            _ => Err(
                                ConfigParseError::WrongType {
                                    key: key.clone(),
                                    field: ConfigField::Rules,
                                },
                            ),
                        },
                    }
                },
                _ => Err(
                    ConfigParseError::WrongType { key: key.clone(), field: ConfigField::Endpoint },
                ),
            },
        },
        _ => Err(ConfigParseError::NotAMapping { key: key.clone() }),
    }
}

/// The keys of the tenants parsed so far.
pub open spec fn seen_keys(seen: Seq<String>) -> Seq<Seq<char>> {
    seen.map_values(|s: String| s@)
}

/// Whether `k` is among the keys in `seen`.
fn contains_str(seen: &Vec<String>, k: &str) -> (r: bool)
    ensures
        r == seen_keys(seen@).contains(k@),
{
    let n = seen.len();
    let mut i: usize = 0;
    while i < n
        invariant
            i <= n,
            n == seen@.len(),
            forall|j: int| 0 <= j < i ==> seen_keys(seen@)[j] != k@,
        decreases n - i,
    {
        if str_eq(seen[i].as_str(), k) {
            assert(seen_keys(seen@)[i as int] == k@);
            return true;
        }
        assert(seen_keys(seen@)[i as int] == seen@[i as int]@);
        i += 1;
    }
    assert(!seen_keys(seen@).contains(k@)) by {
        if seen_keys(seen@).contains(k@) {
            let j = choose|j: int| 0 <= j < seen_keys(seen@).len() && seen_keys(seen@)[j] == k@;
            assert(seen_keys(seen@)[j] != k@);
        }
    }
    false
}

/// What the tail of the tenant mapping means, from entry `i` on, with the
/// keys of the earlier entries in `seen`: every key a string not seen
/// before, every value a tenant entry, kept in order.
pub open spec fn spec_parse_clients(
    entries: Seq<(ConfigValue, ConfigValue)>,
    i: int,
    seen: Seq<Seq<char>>,
    default_tls: bool,
    default_sni: Seq<char>,
) -> Result<Seq<ClientView>, ParseErrorView>
    decreases entries.len() - i,
{
    if i >= entries.len() {
        Ok(Seq::empty())
    } else {
        match entries[i].0 {
            ConfigValue::Str(ks) => if seen.contains(ks@) {
                Err(ParseErrorView::DuplicateKey { key: ks@ })
            } else {
                match spec_parse_client(ks@, entries[i].1, default_tls, default_sni) {
                    Ok(c) => match spec_parse_clients(
                        entries,
                        i + 1,
                        seen.push(ks@),
                        default_tls,
                        default_sni,
                    ) {
                        Ok(rest) => Ok(seq![c] + rest),
                        Err(e) => Err(e),
                    },
                    Err(e) => Err(e),
                }
            },
            _ => Err(ParseErrorView::NonStringKey),
        }
    }
}

/// Reads the tail of the tenant mapping, from entry `i` on.
fn parse_clients(
    entries: &Vec<(ConfigValue, ConfigValue)>,
    i: usize,
    seen: Vec<String>,
    default_tls: bool,
    default_sni: &String,
) -> (r: Result<Vec<GefyraClient>, ConfigParseError>)
    requires
        i <= entries@.len(),
    ensures
        r matches Ok(cs) ==> spec_parse_clients(
            entries@,
            i as int,
            seen_keys(seen@),
            default_tls,
            default_sni@,
        ) == Ok::<Seq<ClientView>, ParseErrorView>(cs@.map_values(|c: GefyraClient| c@)),
        r matches Err(e) ==> spec_parse_clients(
            entries@,
            i as int,
            seen_keys(seen@),
            default_tls,
            default_sni@,
        ) == Err::<Seq<ClientView>, ParseErrorView>(e@),
    decreases entries@.len() - i,
{
    if i == entries.len() {
        let empty: Vec<GefyraClient> = Vec::new();
        proof {
            assert(empty@.map_values(|c: GefyraClient| c@) =~= Seq::<ClientView>::empty());
        }
        Ok(empty)
    } else {
        match &entries[i].0 {
            ConfigValue::Str(ks) => {
                if contains_str(&seen, ks.as_str()) {
                    return Err(ConfigParseError::DuplicateKey { key: ks.clone() });
                }
                match parse_client(ks, &entries[i].1, default_tls, default_sni) {
                    Ok(client) => {
                        let ghost seen0 = seen@;
                        let mut seen_next = seen;
                        seen_next.push(ks.clone());
                        proof {
                            assert(seen_keys(seen_next@) =~= seen_keys(seen0).push(ks@));
                        }
                        match parse_clients(entries, i + 1, seen_next, default_tls, default_sni) {
                            Ok(rest) => {
                                let ghost rest0 = rest@;
                                let ghost clientv = client@;
                                let mut clients = rest;
                                clients.insert(0, client);
                                proof {
                                    assert(clients@.map_values(|c: GefyraClient| c@) =~= seq![
                                        clientv,
                                    ] + rest0.map_values(|c: GefyraClient| c@));
                                }
                                Ok(clients)
                            },
                            Err(e) => Err(e),
                        }
                    },
                    Err(e) => Err(e),
                }
            },
            _ => Err(ConfigParseError::NonStringKey),
        }
    }
}

/// What the whole tenant mapping means.
pub open spec fn spec_from_yaml(
    entries: Seq<(ConfigValue, ConfigValue)>,
    default_tls: bool,
    default_sni: Seq<char>,
) -> Result<Seq<ClientView>, ParseErrorView> {
    spec_parse_clients(entries, 0, Seq::empty(), default_tls, default_sni)
}

impl GefyraClient {
    /// Builds the tenants from the per-tenant configuration mapping, in
    /// order. `default_tls_on` and `sni` are the proxy-wide defaults for a
    /// tenant entry that leaves `tls` or `sni` out. Any malformed entry —
    /// a non-string or duplicate key, a missing `endpoint` or `rules`, a
    /// field of the wrong shape, an unknown match type, a regex pattern
    /// that does not compile — fails the whole build with the first error.
    pub fn from_yaml(
        value: &Vec<(ConfigValue, ConfigValue)>,
        default_tls_on: bool,
        sni: String,
    ) -> (r: Result<Vec<GefyraClient>, ConfigParseError>)
        ensures
            r matches Ok(cs) ==> spec_from_yaml(value@, default_tls_on, sni@) == Ok::<
                Seq<ClientView>,
                ParseErrorView,
            >(cs@.map_values(|c: GefyraClient| c@)),
            r matches Err(e) ==> spec_from_yaml(value@, default_tls_on, sni@) == Err::<
                Seq<ClientView>,
                ParseErrorView,
            >(e@),
    {
        let seen: Vec<String> = Vec::new();
        proof {
            assert(seen_keys(seen@) =~= Seq::<Seq<char>>::empty());
        }
        parse_clients(value, 0, seen, default_tls_on, &sni)
    }
}


proof fn lemma_parse_client_key(
    key: Seq<char>,
    v: ConfigValue,
    default_tls: bool,
    default_sni: Seq<char>,
)
    ensures
        spec_parse_client(key, v, default_tls, default_sni) matches Ok(c) ==> c.key == key,
{
}

/// Tenant keys are unique: what `spec_parse_clients` accepts has pairwise
/// distinct keys, none of them among the keys already seen.
pub proof fn lemma_parsed_keys_unique(
    entries: Seq<(ConfigValue, ConfigValue)>,
    i: int,
    seen: Seq<Seq<char>>,
    default_tls: bool,
    default_sni: Seq<char>,
)
    requires
        spec_parse_clients(entries, i, seen, default_tls, default_sni) is Ok,
    ensures
        ({
            let cs = spec_parse_clients(entries, i, seen, default_tls, default_sni)->Ok_0;
            &&& forall|a: int, b: int|
                0 <= a < b < cs.len() ==> (#[trigger] cs[a]).key != (#[trigger] cs[b]).key
            &&& forall|a: int| 0 <= a < cs.len() ==> !seen.contains((#[trigger] cs[a]).key)
        }),
    decreases entries.len() - i,
{
    let cs = spec_parse_clients(entries, i, seen, default_tls, default_sni)->Ok_0;
    if i < entries.len() {
        let ks = entries[i].0->Str_0;
        let c = spec_parse_client(ks@, entries[i].1, default_tls, default_sni)->Ok_0;
        lemma_parse_client_key(ks@, entries[i].1, default_tls, default_sni);
        let seen2 = seen.push(ks@);
        lemma_parsed_keys_unique(entries, i + 1, seen2, default_tls, default_sni);
        let rest = spec_parse_clients(entries, i + 1, seen2, default_tls, default_sni)->Ok_0;
        assert(cs =~= seq![c] + rest);
        assert(seen2.contains(ks@)) by {
            assert(seen2[seen.len() as int] == ks@);
        }
        assert forall|x: Seq<char>| seen.contains(x) implies seen2.contains(x) by {
            let w = choose|w: int| 0 <= w < seen.len() && seen[w] == x;
            assert(seen2[w] == x);
        }
        assert forall|a: int, b: int| 0 <= a < b < cs.len() implies (#[trigger] cs[a]).key != (
        #[trigger] cs[b]).key by {
            if a == 0 {
                assert(cs[b] == rest[b - 1]);
                assert(!seen2.contains(rest[b - 1].key));
            }
        }
        assert forall|a: int| 0 <= a < cs.len() implies !seen.contains((#[trigger] cs[a]).key) by {
            if a > 0 {
                assert(cs[a] == rest[a - 1]);
                assert(!seen2.contains(rest[a - 1].key));
            }
        }
    }
}

/// Tenant keys are unique: a registry built by `from_yaml` never holds two
/// tenants with the same key.
pub proof fn lemma_from_yaml_keys_unique(
    entries: Seq<(ConfigValue, ConfigValue)>,
    default_tls: bool,
    default_sni: Seq<char>,
)
    requires
        spec_from_yaml(entries, default_tls, default_sni) is Ok,
    ensures
        ({
            let cs = spec_from_yaml(entries, default_tls, default_sni)->Ok_0;
            forall|a: int, b: int|
                0 <= a < b < cs.len() ==> (#[trigger] cs[a]).key != (#[trigger] cs[b]).key
        }),
{
    lemma_parsed_keys_unique(entries, 0, Seq::empty(), default_tls, default_sni);
}

} // verus!
