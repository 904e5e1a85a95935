//! Building rules from a YAML rule table: each rule names its lint type and
//! gives that lint's settings.
use vstd::prelude::*;
use vstd::string::*;
use crate::config::severity::Severity;
use crate::lints::config_map::ConfigMap;
use crate::lints::trait_impl::{
    RequiredVisibility,
    TraitImplConfiguration,
    TraitImplLintFactory,
    TraitImplLintProcessor,
    generated_trait_configs,
};
use crate::pattern::{regex_compiles, regex_is_match};
use crate::project_context::ProjectContext;
use crate::config::lint_builder::{ConfiguredLint, LintBuilder, same_lint};
use crate::lints::function_lint::FunctionLint;
use crate::lints::module_lint::ModuleLint;
use crate::lints::runner::LintRule;
use crate::lints::struct_lint::StructLint;
use crate::order::lex_le;
use crate::text::{decimal, join, lines_of, opt_view, str_eq, text_lines, usize_to_decimal};

verus! {

/// Whether the rules of a table come in strictly increasing order of name.
pub open spec fn names_increasing(t: RuleTable) -> bool {
    forall|i: int, j: int| 0 <= i < j < t.len() ==> lex_le(t[i].0, t[j].0) && t[i].0 != t[j].0
}

/// The settings of one rule: names and (possibly empty) values.
pub type Settings = Seq<(Seq<char>, Option<Seq<char>>)>;

/// A rule table: rule names and their settings.
pub type RuleTable = Seq<(Seq<char>, Settings)>;

/// What `serde_yaml::from_str` reads from `text` when asked for a map from
/// rule names to maps from setting names to optional strings (both
/// `BTreeMap`s): the rule table, or the message of its error.
pub uninterp spec fn yaml_rule_table(text: Seq<char>) -> Result<RuleTable, Seq<char>>;

/// The model of a list of settings.
pub open spec fn settings_view(v: Seq<(String, Option<String>)>) -> Settings {
    v.map_values(|p: (String, Option<String>)| (p.0@, opt_view(p.1)))
}

/// The model of a rule table.
pub open spec fn table_view(t: Seq<(String, Vec<(String, Option<String>)>)>) -> RuleTable {
    t.map_values(|p: (String, Vec<(String, Option<String>)>)| (p.0@, settings_view(p.1@)))
}

/// Reads `text` with `serde_yaml::from_str` as a map from rule names to maps
/// from setting names to optional strings, both `BTreeMap`s, and lists them.
/// The contract claims that the outcome is the (named) table read from these
/// characters, or the (named) error message when there is none, and, as
/// `BTreeMap` documents, that the rules come in increasing order of name (the
/// order of `String`, byte-wise, which for UTF-8 is that of code points);
/// what YAML reads as what is not stated.
#[verifier::external_body]
fn read_rule_table(text: &str) -> (r: Result<Vec<(String, Vec<(String, Option<String>)>)>, String>)
    ensures
        match r {
            Ok(t) => yaml_rule_table(text@) == Ok::<RuleTable, Seq<char>>(table_view(t@)),
            Err(m) => yaml_rule_table(text@) == Err::<RuleTable, Seq<char>>(m@),
        },
        r matches Ok(t) ==> names_increasing(table_view(t@)),
{
    match serde_yaml::from_str::<
        std::collections::BTreeMap<String, std::collections::BTreeMap<String, Option<String>>>,
    >(text) {
        Ok(t) => Ok(t.into_iter().map(|(k, v)| (k, v.into_iter().collect())).collect()),
        Err(e) => Err(e.to_string()),
    }
}

/// Why a rule table could not be turned into rules.
#[derive(Debug, Clone, Copy, PartialEq, Eq, Structural)]
pub enum ConfigErrorKind {
    /// The text is not a table of rules with string settings.
    Syntax,
    /// A rule has no `type`.
    MissingType,
    /// A rule's `type` names no known lint.
    UnknownType,
    /// A required setting is missing.
    MissingField,
    /// A setting has a value it cannot take.
    InvalidValue,
    /// A rule's trait pattern does not compile.
    InvalidPattern,
}

/// An error in a rule table: its kind, the rule it is about (empty for a
/// syntax error) and a detail (the setting, the type, the pattern, or the
/// reader's message).
#[derive(Debug)]
pub struct ConfigError {
    pub kind: ConfigErrorKind,
    pub rule: String,
    pub detail: String,
}

/// The value of the first setting named `key`, if any.
pub open spec fn setting(fields: Settings, key: Seq<char>) -> Option<Option<Seq<char>>>
    decreases fields.len(),
{
    if fields.len() == 0 {
        None
    } else if fields[0].0 == key {
        Some(fields[0].1)
    } else {
        setting(fields.skip(1), key)
    }
}

/// The model of a trait implementation rule's configuration.
pub struct TraitImplConfigView {
    pub source_name: Seq<char>,
    pub name_must_match: Option<Seq<char>>,
    pub enforce_visibility: Option<RequiredVisibility>,
    pub severity: Severity,
}

/// The model of a configuration.
pub open spec fn config_view(c: TraitImplConfiguration) -> TraitImplConfigView {
    TraitImplConfigView {
        source_name: c.source_name@,
        name_must_match: opt_view(c.name_must_match),
        enforce_visibility: c.enforce_visibility,
        severity: c.severity,
    }
}

/// What the settings of a `trait_impl` rule make: a configuration, or the
/// first problem, checked in this order: `source_name` (required), then
/// `enforce_visibility` (`Private` or `Public`, optional), then `severity`
/// (`Warn` or `Error`, required), then whether the trait pattern compiles;
/// `name_must_match` is optional and any string.
pub open spec fn trait_impl_outcome(fields: Settings) -> Result<TraitImplConfigView, (ConfigErrorKind, Seq<char>)> {
    let vis = setting(fields, "enforce_visibility"@);
    let sev = setting(fields, "severity"@);
    match setting(fields, "source_name"@) {
        None => Err((ConfigErrorKind::MissingField, "source_name"@)),
        Some(None) => Err((ConfigErrorKind::InvalidValue, "source_name"@)),
        Some(Some(source)) => {
            let visibility: Option<Option<RequiredVisibility>> = match vis {
                Some(Some(v)) => if v == "Private"@ {
                    Some(Some(RequiredVisibility::Private))
                } else if v == "Public"@ {
                    Some(Some(RequiredVisibility::Public))
                } else {
                    None
                },
                _ => Some(None),
            };
            match visibility {
                None => Err((ConfigErrorKind::InvalidValue, "enforce_visibility"@)),
                Some(visibility) => match sev {
                    None => Err((ConfigErrorKind::MissingField, "severity"@)),
                    Some(v) => if v == Some("Warn"@) || v == Some("Error"@) {
                        if regex_compiles(source) {
                            Ok(
                                TraitImplConfigView {
                                    source_name: source,
                                    name_must_match: match setting(fields, "name_must_match"@) {
                                        Some(Some(p)) => Some(p),
                                        _ => None,
                                    },
                                    enforce_visibility: visibility,
                                    severity: if v == Some("Warn"@) {
                                        Severity::Warn
                                    } else {
                                        Severity::Error
                                    },
                                },
                            )
                        } else {
                            Err((ConfigErrorKind::InvalidPattern, source))
                        }
                    } else {
                        Err((ConfigErrorKind::InvalidValue, "severity"@))
                    },
                },
            }
        },
    }
}

/// What a rule of any type makes: rules of type `trait_impl` as above.
pub open spec fn rule_outcome(fields: Settings) -> Result<TraitImplConfigView, (ConfigErrorKind, Seq<char>)> {
    match setting(fields, "type"@) {
        Some(Some(t)) => if t == "trait_impl"@ {
            trait_impl_outcome(fields)
        } else {
            Err((ConfigErrorKind::UnknownType, t))
        },
        _ => Err((ConfigErrorKind::MissingType, "type"@)),
    }
}

/// How the settings of a rule are read. A `trait_impl` rule with a trait
/// pattern that compiles, a name pattern, a visibility of `Private` or
/// `Public` and a severity of `Warn` or `Error` makes exactly that
/// configuration; any other visibility word is refused as an invalid
/// `enforce_visibility`, any other severity word as an invalid `severity`, a
/// missing severity as a missing field, and a rule of any other type as of
/// unknown type.
pub proof fn lemma_rule_settings(
    source: Seq<char>,
    pattern: Seq<char>,
    vis_word: Seq<char>,
    sev_word: Seq<char>,
    kind: Seq<char>,
)
    requires
        regex_compiles(source),
    ensures
        ({
            let fields = seq![
                ("type"@, Some("trait_impl"@)),
                ("source_name"@, Some(source)),
                ("name_must_match"@, Some(pattern)),
                ("enforce_visibility"@, Some(vis_word)),
                ("severity"@, Some(sev_word)),
            ];
            let out = rule_outcome(fields);
            &&& (vis_word == "Private"@ || vis_word == "Public"@) && (sev_word == "Warn"@ || sev_word == "Error"@)
                ==> out == Ok::<TraitImplConfigView, (ConfigErrorKind, Seq<char>)>(
                TraitImplConfigView {
                    source_name: source,
                    name_must_match: Some(pattern),
                    enforce_visibility: Some(
                        if vis_word == "Private"@ {
                            RequiredVisibility::Private
                        } else {
                            RequiredVisibility::Public
                        },
                    ),
                    severity: if sev_word == "Warn"@ {
                        Severity::Warn
                    } else {
                        Severity::Error
                    },
                },
            )
            &&& vis_word != "Private"@ && vis_word != "Public"@ ==> out == Err::<
                TraitImplConfigView,
                (ConfigErrorKind, Seq<char>),
            >((ConfigErrorKind::InvalidValue, "enforce_visibility"@))
            &&& (vis_word == "Private"@ || vis_word == "Public"@) && sev_word != "Warn"@ && sev_word != "Error"@
                ==> out == Err::<TraitImplConfigView, (ConfigErrorKind, Seq<char>)>(
                (ConfigErrorKind::InvalidValue, "severity"@),
            )
        }),
        rule_outcome(seq![("type"@, Some("trait_impl"@)), ("source_name"@, Some(source))]) == Err::<
            TraitImplConfigView,
            (ConfigErrorKind, Seq<char>),
        >((ConfigErrorKind::MissingField, "severity"@)),
        kind != "trait_impl"@ ==> rule_outcome(seq![("type"@, Some(kind)), ("source_name"@, Some(source))]) == Err::<
            TraitImplConfigView,
            (ConfigErrorKind, Seq<char>),
        >((ConfigErrorKind::UnknownType, kind)),
{
    reveal_strlit("type");
    reveal_strlit("source_name");
    reveal_strlit("name_must_match");
    reveal_strlit("enforce_visibility");
    reveal_strlit("severity");
    assert("type"@.len() == 4 && "source_name"@.len() == 11 && "name_must_match"@.len() == 15
        && "enforce_visibility"@.len() == 18 && "severity"@.len() == 8);
    let fields = seq![
        ("type"@, Some("trait_impl"@)),
        ("source_name"@, Some(source)),
        ("name_must_match"@, Some(pattern)),
        ("enforce_visibility"@, Some(vis_word)),
        ("severity"@, Some(sev_word)),
    ];
    reveal_with_fuel(setting, 6);
    assert(fields.skip(1).skip(1).skip(1).skip(1).skip(1).len() == 0);
    assert(fields.skip(1)[0] == fields[1]);
    assert(fields.skip(1).skip(1)[0] == fields[2]);
    assert(fields.skip(1).skip(1).skip(1)[0] == fields[3]);
    assert(fields.skip(1).skip(1).skip(1).skip(1)[0] == fields[4]);
    assert(setting(fields, "type"@) == Some(Some("trait_impl"@)));
    assert(setting(fields, "source_name"@) == Some(Some(source)));
    assert(setting(fields, "name_must_match"@) == Some(Some(pattern)));
    assert(setting(fields, "enforce_visibility"@) == Some(Some(vis_word)));
    assert(setting(fields, "severity"@) == Some(Some(sev_word)));
    let short = seq![("type"@, Some("trait_impl"@)), ("source_name"@, Some(source))];
    assert(short.skip(1)[0] == short[1]);
    assert(short.skip(1).skip(1).len() == 0);
    assert(setting(short, "severity"@) == None::<Option<Seq<char>>>);
    assert(setting(short, "enforce_visibility"@) == None::<Option<Seq<char>>>);
    assert(setting(short, "source_name"@) == Some(Some(source)));
    assert(setting(short, "type"@) == Some(Some("trait_impl"@)));
    let other = seq![("type"@, Some(kind)), ("source_name"@, Some(source))];
    assert(setting(other, "type"@) == Some(Some(kind)));
}

/// The first setting named `key`, if any.
fn find_setting<'a>(fields: &'a Vec<(String, Option<String>)>, key: &str) -> (r: Option<&'a Option<String>>)
    ensures
        match r {
            Some(v) => setting(settings_view(fields@), key@) == Some(opt_view(*v)),
            None => setting(settings_view(fields@), key@) is None,
        },
{
    let ghost all = settings_view(fields@);
    let mut i: usize = 0;
    assert(all.skip(0) =~= all);
    while i < fields.len()
        invariant
            i <= fields@.len(),
            all == settings_view(fields@),
            setting(all.skip(i as int), key@) == setting(all, key@),
        decreases fields.len() - i,
    {
        let ghost rest = all.skip(i as int);
        assert(rest.skip(1) =~= all.skip(i + 1));
        assert(rest[0] == all[i as int]);
        if str_eq(fields[i].0.as_str(), key) {
            return Some(&fields[i].1);
        }
        i = i + 1;
    }
    assert(all.skip(i as int) =~= Seq::<(Seq<char>, Option<Seq<char>>)>::empty());
    None
}

fn config_error(kind: ConfigErrorKind, rule: &str, detail: &str) -> (r: ConfigError)
    ensures
        r.kind == kind,
        r.rule@ == rule@,
        r.detail@ == detail@,
{
    ConfigError { kind, rule: String::from_str(rule), detail: String::from_str(detail) }
}

/// Something that builds the rules of one lint type, and offers a sample
/// configuration for a crate.
pub trait LintFactory {
    /// Makes the factory known; the factories of this library are built into
    /// `LintConfigurationFactory::from_yaml`, so there is nothing to record.
    fn register();

    /// The rules that the settings `fields` of rule `rule_name` configure.
    fn configure(&self, rule_name: &str, fields: &Vec<(String, Option<String>)>) -> Result<
        Vec<TraitImplLintProcessor>,
        ConfigError,
    >;

    /// Sample rule configurations for the crate of `context`, by rule name.
    fn generate_config(&self, context: &ProjectContext) -> Result<ConfigMap, ConfigError>;
}

impl LintFactory for TraitImplLintFactory {
    fn register() {
    }

    /// The one rule that the settings configure (see `trait_impl_outcome`).
    fn configure(&self, rule_name: &str, fields: &Vec<(String, Option<String>)>) -> (r: Result<
        Vec<TraitImplLintProcessor>,
        ConfigError,
    >)
        ensures
            match trait_impl_outcome(settings_view(fields@)) {
                Ok(c) => r matches Ok(v) && v@.len() == 1 && v@[0].rule_name() == rule_name@ && config_view(
                    v@[0].configuration(),
                ) == c,
                Err((kind, detail)) => r matches Err(e) && e.kind == kind && e.rule@ == rule_name@ && e.detail@
                    == detail,
            },
    {
        let ghost fv = settings_view(fields@);
        let source = match find_setting(fields, "source_name") {
            None => {
                return Err(config_error(ConfigErrorKind::MissingField, rule_name, "source_name"));
            },
            Some(None) => {
                return Err(config_error(ConfigErrorKind::InvalidValue, rule_name, "source_name"));
            },
            Some(Some(s)) => s,
        };
        let enforce_visibility = match find_setting(fields, "enforce_visibility") {
            Some(Some(v)) => {
                if str_eq(v.as_str(), "Private") {
                    Some(RequiredVisibility::Private)
                } else if str_eq(v.as_str(), "Public") {
                    Some(RequiredVisibility::Public)
                } else {
                    return Err(config_error(ConfigErrorKind::InvalidValue, rule_name, "enforce_visibility"));
                }
            },
            _ => None,
        };
        let severity = match find_setting(fields, "severity") {
            None => {
                return Err(config_error(ConfigErrorKind::MissingField, rule_name, "severity"));
            },
            Some(None) => {
                return Err(config_error(ConfigErrorKind::InvalidValue, rule_name, "severity"));
            },
            Some(Some(v)) => {
                if str_eq(v.as_str(), "Warn") {
                    Severity::Warn
                } else if str_eq(v.as_str(), "Error") {
                    Severity::Error
                } else {
                    return Err(config_error(ConfigErrorKind::InvalidValue, rule_name, "severity"));
                }
            },
        };
        let name_must_match = match find_setting(fields, "name_must_match") {
            Some(Some(p)) => Some(p.clone()),
            _ => None,
        };
        let config = TraitImplConfiguration {
            source_name: source.clone(),
            name_must_match,
            enforce_visibility,
            severity,
        };
        match TraitImplLintProcessor::try_new(String::from_str(rule_name), config) {
            Some(p) => {
                let mut v: Vec<TraitImplLintProcessor> = Vec::new();
                v.push(p);
                Ok(v)
            },
            None => Err(config_error(ConfigErrorKind::InvalidPattern, rule_name, source.as_str())),
        }
    }

    /// The sample configuration (see `generated_trait_configs`); it is always given.
    fn generate_config(&self, context: &ProjectContext) -> (r: Result<ConfigMap, ConfigError>)
        ensures
            r matches Ok(m) && m.wf() && m@ == generated_trait_configs(context.module_root@, context.traits@),
    {
        Ok(self.sample_config(context))
    }
}

/// Builds rules from configuration text.
#[derive(Debug)]
pub struct LintConfigurationFactory {}

impl LintConfigurationFactory {
    /// The rules of a YAML rule table: one per entry, in the order the reader
    /// lists them (by rule name). The text must read as a table (else the
    /// reader's message is the error), and every rule must make a
    /// configuration (else the error is that of the first rule that does not).
    pub fn from_yaml(text: String) -> (r: Result<Vec<TraitImplLintProcessor>, ConfigError>)
        ensures
            yaml_rule_table(text@) matches Err(m) ==> (r matches Err(e) && e.kind == ConfigErrorKind::Syntax
                && e.rule@ == Seq::<char>::empty() && e.detail@ == m),
            yaml_rule_table(text@) matches Ok(t) ==> (r is Ok <==> forall|i: int|
                0 <= i < t.len() ==> #[trigger] rule_outcome(t[i].1) is Ok),
            yaml_rule_table(text@) matches Ok(t) ==> (r matches Ok(v) ==> v@.len() == t.len() && forall|i: int|
                0 <= i < t.len() ==> v@[i].rule_name() == t[i].0 && rule_outcome(t[i].1) == Ok::<
                    TraitImplConfigView,
                    (ConfigErrorKind, Seq<char>),
                >(config_view(#[trigger] v@[i].configuration()))),
            r matches Ok(v) ==> forall|i: int, j: int|
                0 <= i < j < v@.len() ==> lex_le(v@[i].rule_name(), v@[j].rule_name()) && v@[i].rule_name()
                    != v@[j].rule_name(),
            yaml_rule_table(text@) matches Ok(t) ==> (r matches Err(e) ==> exists|i: int|
                0 <= i < t.len() && (forall|j: int| 0 <= j < i ==> #[trigger] rule_outcome(t[j].1) is Ok)
                    && e.rule@ == t[i].0 && #[trigger] rule_outcome(t[i].1) == Err::<
                    TraitImplConfigView,
                    (ConfigErrorKind, Seq<char>),
                >((e.kind, e.detail@))),
    {
        let table = match read_rule_table(text.as_str()) {
            Ok(t) => t,
            Err(message) => {
                return Err(ConfigError { kind: ConfigErrorKind::Syntax, rule: String::new(), detail: message });
            },
        };
        let ghost tv = table_view(table@);
        let factory = TraitImplLintFactory::new();
        let mut out: Vec<TraitImplLintProcessor> = Vec::new();
        let mut i: usize = 0;
        while i < table.len()
            invariant
                i <= table@.len(),
                tv == table_view(table@),
                yaml_rule_table(text@) == Ok::<RuleTable, Seq<char>>(tv),
                names_increasing(tv),
                out@.len() == i,
                forall|j: int| 0 <= j < i ==> #[trigger] out@[j].rule_name() == tv[j].0,
                forall|j: int|
                    0 <= j < i ==> out@[j].rule_name() == tv[j].0 && rule_outcome(tv[j].1) == Ok::<
                        TraitImplConfigView,
                        (ConfigErrorKind, Seq<char>),
                    >(config_view(#[trigger] out@[j].configuration())),
            decreases table.len() - i,
        {
            let (rule_name, fields) = (&table[i].0, &table[i].1);
            assert(tv[i as int] == (rule_name@, settings_view(fields@)));
            proof {
                assert forall|j: int| 0 <= j < i implies #[trigger] rule_outcome(tv[j].1) is Ok by {
                    assert(rule_outcome(tv[j].1) == Ok::<TraitImplConfigView, (ConfigErrorKind, Seq<char>)>(
                        config_view(out@[j].configuration()),
                    ));
                }
            }
            let kind = find_setting(fields, "type");
            match kind {
                Some(Some(t)) => {
                    if !str_eq(t.as_str(), "trait_impl") {
                        let e = ConfigError {
                            kind: ConfigErrorKind::UnknownType,
                            rule: rule_name.clone(),
                            detail: t.clone(),
                        };
                        assert(rule_outcome(tv[i as int].1) == Err::<TraitImplConfigView, (ConfigErrorKind, Seq<char>)>(
                            (e.kind, e.detail@),
                        ));
                        return Err(e);
                    }
                },
                _ => {
                    let e = config_error(ConfigErrorKind::MissingType, rule_name.as_str(), "type");
                    assert(rule_outcome(tv[i as int].1) == Err::<TraitImplConfigView, (ConfigErrorKind, Seq<char>)>(
                        (e.kind, e.detail@),
                    ));
                    return Err(e);
                },
            }
            assert(rule_outcome(tv[i as int].1) == trait_impl_outcome(settings_view(fields@)));
            match factory.configure(rule_name.as_str(), fields) {
                Ok(mut v) => {
                    let ghost first = v@[0];
                    let p = v.pop().unwrap();
                    assert(p == first);
                    out.push(p);
                },
                Err(e) => {
                    return Err(e);
                },
            }
            i = i + 1;
        }
        proof {
            assert forall|a: int, b: int| 0 <= a < b < out@.len() implies lex_le(
                out@[a].rule_name(),
                out@[b].rule_name(),
            ) && out@[a].rule_name() != out@[b].rule_name() by {
                assert(out@[a].rule_name() == tv[a].0);
                assert(out@[b].rule_name() == tv[b].0);
            }
            assert forall|j: int| 0 <= j < tv.len() implies #[trigger] rule_outcome(tv[j].1) is Ok by {
                assert(rule_outcome(tv[j].1) == Ok::<TraitImplConfigView, (ConfigErrorKind, Seq<char>)>(
                    config_view(out@[j].configuration()),
                ));
            }
        }
        Ok(out)
    }

    /// The lints of a configuration, in order, each ready to run.
    pub fn from_lint_builder(lint_builder: LintBuilder) -> (r: Vec<LintRule>)
        ensures
            r@.len() == lint_builder.lints@.len(),
            forall|i: int|
                0 <= i < r@.len() ==> #[trigger] configured_as(r@[i], lint_builder.lints@[i]),
    {
        let lints = &lint_builder.lints;
        let mut out: Vec<LintRule> = Vec::new();
        let mut i: usize = 0;
        while i < lints.len()
            invariant
                i <= lints@.len(),
                out@.len() == i,
                forall|j: int| 0 <= j < i ==> #[trigger] configured_as(out@[j], lints@[j]),
            decreases lints.len() - i,
        {
            let l = &lints[i];
            let rule = match l {
                ConfiguredLint::Module(_) => LintRule::Module(ModuleLint::new(l)),
                ConfiguredLint::Struct(_) => LintRule::Struct(StructLint::new(l)),
                ConfiguredLint::Function(_) => LintRule::Function(FunctionLint::new(l)),
            };
            out.push(rule);
            i = i + 1;
        }
        out
    }

    /// The message for configuration text that does not parse: the parser's
    /// message `error`, then, when the text has lines, its first ten lines,
    /// numbered from one.
    pub fn parse_failure_message(error: &str, content: &str) -> (r: String)
        ensures
            r@ == "Failed to parse RON content: "@ + error@ + content_preview(content@),
    {
        let lines = lines_of(content);
        let mut out = String::from_str("Failed to parse RON content: ");
        out.append(error);
        let ghost ls = text_lines(content@);
        let n: usize = if lines.len() < 10 {
            lines.len()
        } else {
            10
        };
        if n > 0 {
            out.append("\nFirst few lines of the content:\n");
            let mut numbered: Vec<String> = Vec::new();
            let mut i: usize = 0;
            while i < n
                invariant
                    i <= n,
                    n <= lines@.len(),
                    ls == lines@.map_values(|l: String| l@),
                    numbered@.map_values(|l: String| l@) == numbered_lines(ls).take(i as int),
                    n == numbered_lines(ls).len(),
                decreases n - i,
            {
                let mut line = usize_to_decimal(i + 1);
                line.append(": ");
                line.append(lines[i].as_str());
                let ghost before = numbered@;
                numbered.push(line);
                assert(numbered@.map_values(|l: String| l@) =~= before.map_values(|l: String| l@).push(line@));
                assert(numbered_lines(ls).take(i + 1) =~= numbered_lines(ls).take(i as int).push(numbered_lines(ls)[i as int]));
                i = i + 1;
            }
            assert(numbered_lines(ls).take(n as int) =~= numbered_lines(ls));
            let joined = crate::text::join_strings(&numbered, "\n");
            out.append(joined.as_str());
        }
        out
    }
}

/// A rule ready to run that `lint` configures: of the same kind, with the same
/// name, matcher and rules.
pub open spec fn configured_as(r: LintRule, lint: ConfiguredLint) -> bool {
    match lint {
        ConfiguredLint::Module(m) => r matches LintRule::Module(x) && x.config.name == m.name && x.config.matches
            == m.matches && crate::config::lint_builder::same_module_rules(x.config.rules@, m.rules@),
        ConfiguredLint::Struct(s) => r matches LintRule::Struct(x) && x.name == s.name && x.matches == s.matches
            && x.struct_rules@ == s.rules@,
        ConfiguredLint::Function(f) => r matches LintRule::Function(x) && x.name == f.name && x.matches == f.matches
            && x.function_rules@ == f.rules@ && x.allocation_cache@.len() == 0,
    }
}

/// The first ten lines of `ls`, each numbered from one: the number, `: `, the line.
pub open spec fn numbered_lines(ls: Seq<Seq<char>>) -> Seq<Seq<char>> {
    let n = if ls.len() < 10 {
        ls.len() as int
    } else {
        10
    };
    Seq::new(n as nat, |i: int| decimal((i + 1) as nat) + ": "@ + ls[i])
}

/// The preview of unparsable content: nothing without lines, else a heading
/// and its first ten numbered lines, one per line.
pub open spec fn content_preview(content: Seq<char>) -> Seq<char> {
    let numbered = numbered_lines(text_lines(content));
    if numbered.len() == 0 {
        Seq::empty()
    } else {
        "\nFirst few lines of the content:\n"@ + join(numbered, "\n"@)
    }
}

} // verus!
