//! Checks a configuration against a specification. The checks run in a
//! fixed order, and the first rule that is broken ends the pass with one
//! error.

use crate::config::{AppConfig, AppConfigView, AppSpec, AppSpecView, EnvSpec, EnvSpecOrPlain, EnvSpecOrPlainView};
use crate::config_loader::{ConfigError, ConfigErrorView};
use crate::keyed::{binds, lookup, Binding, SpannedMap};
use crate::pattern::{apply_pattern, pattern_outcome, PatternOutcome};
use crate::span::{Located, LocatedView, NamedSource, Source, SourceSpan};
use std::borrow::Cow;
use vstd::hash_map::StringHashMap;
use vstd::prelude::*;
use vstd::string::StringExecFns;

verus! {

/// A key and the place where it is declared.
pub struct Declaration {
    pub key: Seq<char>,
    pub span: SourceSpan,
}

/// Whether the key declared at position `j` is also declared before it.
pub open spec fn redeclared(decls: Seq<Declaration>, j: int) -> bool {
    exists|i: int| 0 <= i < j && (#[trigger] decls[i]).key == decls[j].key
}

/// Whether `j` is the first position whose key is declared before it.
pub open spec fn first_redeclared(decls: Seq<Declaration>, j: int) -> bool {
    &&& 0 <= j < decls.len()
    &&& redeclared(decls, j)
    &&& forall|k: int| 0 <= k < j ==> !#[trigger] redeclared(decls, k)
}

/// The two ranges in the order a diagnostic names them: the one that
/// starts earlier in the text is the previous definition, whichever was
/// met first.
pub open spec fn in_text_order(seen: SourceSpan, current: SourceSpan) -> (SourceSpan, SourceSpan) {
    if seen.start < current.start {
        (seen, current)
    } else {
        (current, seen)
    }
}

/// The outcome of the scan for a key that is declared twice: nothing where
/// all keys differ, else the previous definition and the redefinition of
/// the first key that is met a second time.
pub open spec fn duplicate_report(decls: Seq<Declaration>) -> Option<(SourceSpan, SourceSpan)> {
    if exists|j: int| first_redeclared(decls, j) {
        let j = choose|j: int| first_redeclared(decls, j);
        let i = choose|i: int| 0 <= i < j && (#[trigger] decls[i]).key == decls[j].key;
        Some(in_text_order(decls[i].span, decls[j].span))
    } else {
        None
    }
}

/// At most one position is the first redeclared one, and the key at that
/// position has exactly one earlier declaration.
pub proof fn lemma_first_redeclared(decls: Seq<Declaration>, i: int, j: int)
    requires
        first_redeclared(decls, j),
        0 <= i < j,
        decls[i].key == decls[j].key,
    ensures
        duplicate_report(decls) == Some(in_text_order(decls[i].span, decls[j].span)),
{
    let j2 = choose|j: int| first_redeclared(decls, j);
    assert(first_redeclared(decls, j2));
    if j2 < j {
        assert(!redeclared(decls, j2));
    } else if j < j2 {
        assert(!redeclared(decls, j));
    }
    let i2 = choose|i: int| 0 <= i < j && (#[trigger] decls[i]).key == decls[j].key;
    if i2 < i {
        assert(decls[i2].key == decls[i].key);
        assert(redeclared(decls, i));
    } else if i < i2 {
        assert(decls[i].key == decls[i2].key);
        assert(redeclared(decls, i2));
    }
}

/// Where no position is redeclared, nothing is reported.
pub proof fn lemma_no_redeclaration(decls: Seq<Declaration>)
    requires
        forall|k: int| 0 <= k < decls.len() ==> !#[trigger] redeclared(decls, k),
    ensures
        duplicate_report(decls) is None,
{
    if exists|j: int| first_redeclared(decls, j) {
        let j = choose|j: int| first_redeclared(decls, j);
        assert(redeclared(decls, j));
    }
}

/// A key with the place where it is declared.
pub struct Declared {
    pub key: String,
    pub span: SourceSpan,
}

impl DeepView for Declared {
    type V = Declaration;

    open spec fn deep_view(&self) -> Declaration {
        Declaration { key: self.key@, span: self.span }
    }
}

/// Scans the declarations in order for a key that was seen before.
pub fn find_duplicate(decls: &Vec<Declared>) -> (report: Option<(SourceSpan, SourceSpan)>)
    ensures
        report == duplicate_report(decls.deep_view()),
{
    let ghost model = decls.deep_view();
    let mut seen: StringHashMap<SourceSpan> = StringHashMap::new();
    let mut j: usize = 0;
    while j < decls.len()
        invariant
            j <= decls.len(),
            model == decls.deep_view(),
            forall|k: int| 0 <= k < j ==> !#[trigger] redeclared(model, k),
            forall|i: int| 0 <= i < j ==> seen@.contains_key((#[trigger] model[i]).key) && seen@[model[i].key] == model[i].span,
            forall|key: Seq<char>| #[trigger] seen@.contains_key(key) ==> exists|i: int| 0 <= i < j && (#[trigger] model[i]).key == key,
        decreases decls.len() - j,
    {
        let item = &decls[j];
        assert(item.deep_view() == model[j as int]);
        match seen.get(item.key.as_str()) {
            Some(prev_span) => {
                let prev_span = *prev_span;
                let report = if prev_span.start < item.span.start {
                    (prev_span, item.span)
                } else {
                    (item.span, prev_span)
                };
                proof {
                    let i = choose|i: int| 0 <= i < j && (#[trigger] model[i]).key == item.key@;
                    assert(redeclared(model, j as int));
                    assert(first_redeclared(model, j as int));
                    lemma_first_redeclared(model, i, j as int);
                }
                return Some(report);
            },
            None => {
                proof {
                    if redeclared(model, j as int) {
                        let i = choose|i: int| 0 <= i < j && (#[trigger] model[i]).key == model[j as int].key;
                        assert(seen@.contains_key(model[i].key));
                    }
                }
                seen.insert(item.key.clone(), item.span);
            },
        }
        j = j + 1;
    }
    proof {
        lemma_no_redeclaration(model);
    }
    None
}

/// One expectation of the specification with the place where it is
/// declared.
pub struct Requirement {
    pub key: Seq<char>,
    pub regex: Option<Seq<char>>,
    pub optional: bool,
    pub span: SourceSpan,
}

/// The requirement that an entry of a requirement list stands for.
pub open spec fn requirement_of(item: LocatedView<EnvSpecOrPlainView>) -> Requirement {
    let spec = item.value.requirement();
    Requirement { key: spec.key, regex: spec.regex, optional: spec.optional, span: item.span }
}

/// The requirements that a list of entries stands for, in its order.
pub open spec fn requirements_of(items: Seq<LocatedView<EnvSpecOrPlainView>>) -> Seq<Requirement> {
    Seq::new(items.len(), |i: int| requirement_of(items[i]))
}

/// All requirements of a specification: those for plain variables, then
/// those for secrets.
pub open spec fn all_requirements(spec: AppSpecView) -> Seq<Requirement> {
    requirements_of(spec.env) + requirements_of(spec.secrets)
}

/// The keys that a specification declares, in the order of
/// `all_requirements`.
pub open spec fn spec_declarations(spec: AppSpecView) -> Seq<Declaration> {
    Seq::new(
        all_requirements(spec).len(),
        |i: int| Declaration { key: all_requirements(spec)[i].key, span: all_requirements(spec)[i].span },
    )
}

/// The keys of a mapping with their places.
pub open spec fn binding_declarations(bindings: Seq<Binding<Seq<char>>>) -> Seq<Declaration> {
    Seq::new(bindings.len(), |i: int| Declaration { key: bindings[i].key, span: bindings[i].span })
}

/// The keys that a configuration defines: the plain variables, then the
/// secrets.
pub open spec fn config_declarations(config: AppConfigView) -> Seq<Declaration> {
    binding_declarations(config.env) + binding_declarations(config.secrets)
}

/// What one requirement finds wrong with a configuration.
pub enum Finding {
    /// The key must be given and is in neither namespace.
    Undefined { def: SourceSpan },
    /// The declared pattern does not compile.
    InvalidRegex { def: SourceSpan },
    /// The value under the key at `def` does not match `pattern`.
    Mismatch { def: SourceSpan, pattern: Seq<char> },
}

/// The entry that satisfies a key: the plain variable of that name, else
/// the secret of that name.
pub open spec fn supplied(config: AppConfigView, key: Seq<char>) -> Option<Binding<Seq<char>>> {
    match lookup(config.env, key) {
        Some(b) => Some(b),
        None => lookup(config.secrets, key),
    }
}

/// What `req` finds wrong with `config`, if anything. A missing value is
/// reported first; then a pattern that does not compile, whether or not
/// there is a value; then a value that does not match.
pub open spec fn finding(req: Requirement, config: AppConfigView) -> Option<Finding> {
    let value = supplied(config, req.key);
    if !req.optional && value is None {
        Some(Finding::Undefined { def: req.span })
    } else {
        match req.regex {
            None => None,
            Some(pattern) => if !crate::pattern::regex_compiles(pattern) {
                Some(Finding::InvalidRegex { def: req.span })
            } else {
                match value {
                    Some(b) => if crate::pattern::regex_accepts(pattern, b.value) {
                        None
                    } else {
                        Some(Finding::Mismatch { def: b.span, pattern })
                    },
                    None => None,
                }
            },
        }
    }
}

/// The kind of thing that a requirement finds wrong.
#[derive(Clone, Copy, Debug, PartialEq, Eq, Structural)]
pub enum Fault {
    Undefined,
    InvalidRegex,
    Mismatch,
}

/// What is wrong with a requirement, given whether it may be left out,
/// whether a value is supplied, and what its pattern says of the value. A
/// missing value comes first, then a pattern that does not compile, then a
/// value that does not match.
pub open spec fn judged(optional: bool, is_supplied: bool, outcome: PatternOutcome) -> Option<Fault> {
    if !optional && !is_supplied {
        Some(Fault::Undefined)
    } else {
        match outcome {
            PatternOutcome::Invalid => Some(Fault::InvalidRegex),
            PatternOutcome::Tested(false) => Some(Fault::Mismatch),
            _ => None,
        }
    }
}

/// Decides what is wrong with a requirement.
pub fn judge(optional: bool, is_supplied: bool, outcome: PatternOutcome) -> (fault: Option<Fault>)
    ensures
        fault == judged(optional, is_supplied, outcome),
{
    if !optional && !is_supplied {
        return Some(Fault::Undefined);
    }
    match outcome {
        PatternOutcome::Invalid => Some(Fault::InvalidRegex),
        PatternOutcome::Tested(false) => Some(Fault::Mismatch),
        _ => None,
    }
}

/// A finding is what `judged` says of the requirement, the value supplied
/// for it, and the outcome of its pattern.
pub proof fn finding_is_judged(req: Requirement, config: AppConfigView)
    ensures
        judged(
            req.optional,
            supplied(config, req.key) is Some,
            pattern_outcome(
                req.regex,
                match supplied(config, req.key) {
                    Some(b) => Some(b.value),
                    None => None,
                },
            ),
        ) == match finding(req, config) {
            Some(Finding::Undefined { .. }) => Some(Fault::Undefined),
            Some(Finding::InvalidRegex { .. }) => Some(Fault::InvalidRegex),
            Some(Finding::Mismatch { .. }) => Some(Fault::Mismatch),
            None => None,
        },
{
}

/// Whether `i` is the first requirement that finds something wrong.
pub open spec fn first_failing(reqs: Seq<Requirement>, config: AppConfigView, i: int) -> bool {
    &&& 0 <= i < reqs.len()
    &&& finding(reqs[i], config) is Some
    &&& forall|k: int| 0 <= k < i ==> finding(#[trigger] reqs[k], config) is None
}

/// What the first failing requirement finds, or nothing where all are met.
pub open spec fn first_finding(reqs: Seq<Requirement>, config: AppConfigView) -> Option<Finding> {
    if exists|i: int| first_failing(reqs, config, i) {
        finding(reqs[choose|i: int| first_failing(reqs, config, i)], config)
    } else {
        None
    }
}

/// The first failing requirement decides the outcome.
pub proof fn lemma_first_finding(reqs: Seq<Requirement>, config: AppConfigView, i: int)
    requires
        first_failing(reqs, config, i),
    ensures
        first_finding(reqs, config) == finding(reqs[i], config),
{
    let c = choose|i: int| first_failing(reqs, config, i);
    assert(first_failing(reqs, config, c));
    if c < i {
        assert(finding(reqs[c], config) is None);
    } else if i < c {
        assert(finding(reqs[i], config) is None);
    }
}

/// Where every requirement is met, nothing is found.
pub proof fn lemma_nothing_found(reqs: Seq<Requirement>, config: AppConfigView)
    requires
        forall|k: int| 0 <= k < reqs.len() ==> finding(#[trigger] reqs[k], config) is None,
    ensures
        first_finding(reqs, config) is None,
{
    if exists|i: int| first_failing(reqs, config, i) {
        let c = choose|i: int| first_failing(reqs, config, i);
        assert(finding(reqs[c], config) is None);
    }
}

/// Whether `i` is the first secret requirement whose key is defined as a
/// plain variable.
pub open spec fn first_exposed(secrets: Seq<Requirement>, env: Seq<Binding<Seq<char>>>, i: int) -> bool {
    &&& 0 <= i < secrets.len()
    &&& binds(env, secrets[i].key)
    &&& forall|k: int| 0 <= k < i ==> !binds(env, (#[trigger] secrets[k]).key)
}

/// The place of the plain variable that defines the first secret found
/// among the plain variables, if there is one.
pub open spec fn exposed_secret(secrets: Seq<Requirement>, env: Seq<Binding<Seq<char>>>) -> Option<
    SourceSpan,
> {
    if exists|i: int| first_exposed(secrets, env, i) {
        let i = choose|i: int| first_exposed(secrets, env, i);
        Some(lookup(env, secrets[i].key).unwrap().span)
    } else {
        None
    }
}

/// The first exposed secret decides the outcome.
pub proof fn lemma_exposed_secret(secrets: Seq<Requirement>, env: Seq<Binding<Seq<char>>>, i: int)
    requires
        first_exposed(secrets, env, i),
    ensures
        exposed_secret(secrets, env) == Some(lookup(env, secrets[i].key).unwrap().span),
{
    let c = choose|i: int| first_exposed(secrets, env, i);
    assert(first_exposed(secrets, env, c));
    if c < i {
        assert(!binds(env, secrets[c].key));
    } else if i < c {
        assert(!binds(env, secrets[i].key));
    }
}

/// Where no secret is defined as a plain variable, nothing is reported.
pub proof fn lemma_nothing_exposed(secrets: Seq<Requirement>, env: Seq<Binding<Seq<char>>>)
    requires
        forall|k: int| 0 <= k < secrets.len() ==> !binds(env, (#[trigger] secrets[k]).key),
    ensures
        exposed_secret(secrets, env) is None,
{
    if exists|i: int| first_exposed(secrets, env, i) {
        let c = choose|i: int| first_exposed(secrets, env, i);
        assert(!binds(env, secrets[c].key));
    }
}

/// The hint that goes with a value that does not match: the pattern after
/// the words `regex: `.
pub open spec fn mismatch_help(pattern: Seq<char>) -> Seq<char> {
    "regex: "@ + pattern
}

/// Whether `outcome` fails with exactly `expected`, or succeeds where
/// nothing is expected.
pub open spec fn outcome_is(outcome: Result<(), ConfigError>, expected: Option<ConfigErrorView>) -> bool {
    match expected {
        Some(error) => outcome matches Err(e) && e.deep_view() == error,
        None => outcome is Ok,
    }
}

/// The error that reports `found`: what the specification lacks or
/// declares wrongly points into the specification, and a value that does
/// not match points into the configuration.
pub open spec fn finding_error(spec_src: Source, config_src: Source, found: Finding) -> ConfigErrorView {
    match found {
        Finding::Undefined { def } => ConfigErrorView::UndefinedEnv { src: spec_src, def },
        Finding::InvalidRegex { def } => ConfigErrorView::InvalidEnvRegex { src: spec_src, def },
        Finding::Mismatch { def, pattern } => ConfigErrorView::EnvDoesNotMatchSpec {
            src: config_src,
            def,
            help: mismatch_help(pattern),
        },
    }
}

/// The record behind a canonical entry, borrowed or owned.
fn canonical_ref<'a, 'b>(spec: &'b Cow<'a, EnvSpec>) -> (record: &'b EnvSpec)
    ensures
        record.deep_view() == spec.deep_view(),
{
    match spec {
        Cow::Borrowed(b) => b,
        Cow::Owned(o) => o,
    }
}

/// The key of an entry with the place of the entry.
fn declared(item: &Located<EnvSpecOrPlain>) -> (d: Declared)
    ensures
        d.deep_view() == (Declaration {
            key: requirement_of(item.deep_view()).key,
            span: requirement_of(item.deep_view()).span,
        }),
{
    let env_spec = item.get_ref().to_env_spec();
    let record = canonical_ref(&env_spec);
    Declared { key: record.key.clone(), span: item.span }
}

/// Adds the keys of a requirement list to `decls`.
fn push_declared(decls: &mut Vec<Declared>, items: &Vec<Located<EnvSpecOrPlain>>)
    ensures
        final(decls).deep_view() == old(decls).deep_view() + Seq::new(
            items.deep_view().len(),
            |i: int|
                Declaration {
                    key: requirement_of(items.deep_view()[i]).key,
                    span: requirement_of(items.deep_view()[i]).span,
                },
        ),
{
    let ghost start = decls.deep_view();
    let ghost added = Seq::new(
        items.deep_view().len(),
        |i: int|
            Declaration {
                key: requirement_of(items.deep_view()[i]).key,
                span: requirement_of(items.deep_view()[i]).span,
            },
    );
    let mut i: usize = 0;
    while i < items.len()
        invariant
            i <= items.len(),
            items.len() == items.deep_view().len(),
            added.len() == items.len(),
            forall|k: int| 0 <= k < added.len() ==> added[k] == (Declaration {
                key: requirement_of(#[trigger] items.deep_view()[k]).key,
                span: requirement_of(items.deep_view()[k]).span,
            }),
            decls.deep_view() =~= start + added.subrange(0, i as int),
        decreases items.len() - i,
    {
        let d = declared(&items[i]);
        assert(items[i as int].deep_view() == items.deep_view()[i as int]);
        let ghost before = decls.deep_view();
        decls.push(d);
        assert(decls.deep_view() =~= before.push(d.deep_view()));
        assert(added.subrange(0, i as int + 1) =~= added.subrange(0, i as int).push(added[i as int]));
        i = i + 1;
    }
    assert(added.subrange(0, i as int) =~= added);
}

/// Adds the keys of a mapping to `decls`.
fn push_bound(decls: &mut Vec<Declared>, bindings: &SpannedMap<String>)
    ensures
        final(decls).deep_view() == old(decls).deep_view() + binding_declarations(bindings.deep_view()),
{
    let ghost start = decls.deep_view();
    let ghost added = binding_declarations(bindings.deep_view());
    let n = bindings.len();
    let mut i: usize = 0;
    while i < n
        invariant
            i <= n,
            n == bindings.deep_view().len(),
            added == binding_declarations(bindings.deep_view()),
            decls.deep_view() =~= start + added.subrange(0, i as int),
        decreases n - i,
    {
        if let Some((key, span, _)) = bindings.get_index(i) {
            let d = Declared { key: key.clone(), span };
            let ghost before = decls.deep_view();
            decls.push(d);
            assert(decls.deep_view() =~= before.push(d.deep_view()));
            assert(added.subrange(0, i as int + 1) =~= added.subrange(0, i as int).push(added[i as int]));
        }
        i = i + 1;
    }
    assert(added.subrange(0, i as int) =~= added);
}

/// Checks that the specification declares no key twice, over both of its
/// requirement lists.
pub fn validate_spec_no_dup_env_or_secret(spec_doc: (&str, &str, &AppSpec)) -> (outcome: Result<
    (),
    ConfigError,
>)
    ensures
        outcome_is(
            outcome,
            match duplicate_report(spec_declarations(spec_doc.2.deep_view())) {
                Some((prev_def, redef)) => Some(
                    ConfigErrorView::DuplicateSpecEnv {
                        src: Source { name: spec_doc.0@, text: spec_doc.1@ },
                        prev_def,
                        redef,
                    },
                ),
                None => None,
            },
        ),
{
    let (spec_name, spec_text, spec) = spec_doc;
    let mut decls: Vec<Declared> = Vec::new();
    assert(decls.deep_view() =~= Seq::<Declaration>::empty());
    push_declared(&mut decls, &spec.env);
    push_declared(&mut decls, &spec.secrets);
    assert(decls.deep_view() =~= spec_declarations(spec.deep_view()));
    match find_duplicate(&decls) {
        Some((prev_def, redef)) => Err(
            ConfigError::DuplicateSpecEnv { src: NamedSource::new(spec_name, spec_text), prev_def, redef },
        ),
        None => Ok(()),
    }
}

/// Checks that the configuration defines no key twice, over both of its
/// namespaces.
pub fn validate_config_no_dup_env_or_secret(config_doc: (&str, &str, &AppConfig)) -> (outcome: Result<
    (),
    ConfigError,
>)
    ensures
        outcome_is(
            outcome,
            match duplicate_report(config_declarations(config_doc.2.deep_view())) {
                Some((prev_def, redef)) => Some(
                    ConfigErrorView::DuplicateConfigEnv {
                        src: Source { name: config_doc.0@, text: config_doc.1@ },
                        prev_def,
                        redef,
                    },
                ),
                None => None,
            },
        ),
{
    let (config_name, config_text, config) = config_doc;
    let mut decls: Vec<Declared> = Vec::new();
    assert(decls.deep_view() =~= Seq::<Declaration>::empty());
    push_bound(&mut decls, &config.env);
    push_bound(&mut decls, &config.secrets);
    assert(decls.deep_view() =~= config_declarations(config.deep_view()));
    match find_duplicate(&decls) {
        Some((prev_def, redef)) => Err(
            ConfigError::DuplicateConfigEnv {
                src: NamedSource::new(config_name, config_text),
                prev_def,
                redef,
            },
        ),
        None => Ok(()),
    }
}

/// Looks a key up among the plain variables, then among the secrets.
fn lookup_supplied<'a>(config: &'a AppConfig, key: &str) -> (found: Option<(SourceSpan, &'a String)>)
    ensures
        match found {
            Some((span, value)) => supplied(config.deep_view(), key@) == Some(
                Binding { key: key@, span, value: value@ },
            ),
            None => supplied(config.deep_view(), key@) is None,
        },
{
    match config.env.get_key_value(key) {
        Some(kv) => Some(kv),
        None => config.secrets.get_key_value(key),
    }
}

/// Holds one requirement against the configuration.
fn check_requirement(
    spec_doc: (&str, &str),
    config_doc: (&str, &str, &AppConfig),
    item: &Located<EnvSpecOrPlain>,
) -> (outcome: Result<(), ConfigError>)
    ensures
        outcome_is(
            outcome,
            match finding(requirement_of(item.deep_view()), config_doc.2.deep_view()) {
                Some(found) => Some(
                    finding_error(
                        Source { name: spec_doc.0@, text: spec_doc.1@ },
                        Source { name: config_doc.0@, text: config_doc.1@ },
                        found,
                    ),
                ),
                None => None,
            },
        ),
{
    let (spec_name, spec_text) = spec_doc;
    let (config_name, config_text, config) = config_doc;
    let env_spec = item.get_ref().to_env_spec();
    let record = canonical_ref(&env_spec);
    let kv = lookup_supplied(config, record.key.as_str());
    let regex = match &record.regex {
        Some(r) => Some(r.as_str()),
        None => None,
    };
    let value = match kv {
        Some((_, v)) => Some(v.as_str()),
        None => None,
    };
    let outcome = apply_pattern(regex, value);
    match judge(record.optional, kv.is_some(), outcome) {
        None => Ok(()),
        Some(Fault::Undefined) => Err(
            ConfigError::UndefinedEnv { src: NamedSource::new(spec_name, spec_text), def: item.span },
        ),
        Some(Fault::InvalidRegex) => Err(
            ConfigError::InvalidEnvRegex { src: NamedSource::new(spec_name, spec_text), def: item.span },
        ),
        Some(Fault::Mismatch) => match (kv, regex) {
            (Some((key_span, _)), Some(pattern)) => {
                let mut help = "regex: ".to_owned();
                help.append(pattern);
                Err(
                    ConfigError::EnvDoesNotMatchSpec {
                        src: NamedSource::new(config_name, config_text),
                        def: key_span,
                        help,
                    },
                )
            },
            _ => Ok(()),
        },
    }
}

/// Holds the requirements of one list against the configuration, in order.
fn check_requirements(
    spec_doc: (&str, &str),
    config_doc: (&str, &str, &AppConfig),
    items: &Vec<Located<EnvSpecOrPlain>>,
) -> (outcome: Result<(), ConfigError>)
    ensures
        outcome_is(
            outcome,
            match first_finding(requirements_of(items.deep_view()), config_doc.2.deep_view()) {
                Some(found) => Some(
                    finding_error(
                        Source { name: spec_doc.0@, text: spec_doc.1@ },
                        Source { name: config_doc.0@, text: config_doc.1@ },
                        found,
                    ),
                ),
                None => None,
            },
        ),
{
    let ghost reqs = requirements_of(items.deep_view());
    let ghost config = config_doc.2.deep_view();
    let mut i: usize = 0;
    while i < items.len()
        invariant
            i <= items.len(),
            reqs == requirements_of(items.deep_view()),
            reqs.len() == items.len(),
            config == config_doc.2.deep_view(),
            forall|k: int| 0 <= k < i ==> finding(#[trigger] reqs[k], config) is None,
        decreases items.len() - i,
    {
        assert(items[i as int].deep_view() == items.deep_view()[i as int]);
        assert(reqs[i as int] == requirement_of(items[i as int].deep_view()));
        match check_requirement(spec_doc, config_doc, &items[i]) {
            Ok(()) => {},
            Err(e) => {
                proof {
                    assert(first_failing(reqs, config, i as int));
                    lemma_first_finding(reqs, config, i as int);
                }
                return Err(e);
            },
        }
        i = i + 1;
    }
    proof {
        lemma_nothing_found(reqs, config);
    }
    Ok(())
}

/// What two lists find together is what the first finds, else what the
/// second finds.
pub proof fn lemma_first_finding_concat(a: Seq<Requirement>, b: Seq<Requirement>, config: AppConfigView)
    ensures
        first_finding(a + b, config) == match first_finding(a, config) {
            Some(found) => Some(found),
            None => first_finding(b, config),
        },
{
    let ab = a + b;
    if exists|i: int| first_failing(a, config, i) {
        let i = choose|i: int| first_failing(a, config, i);
        assert(first_failing(a, config, i));
        assert(ab[i] == a[i]);
        assert forall|k: int| 0 <= k < i implies finding(#[trigger] ab[k], config) is None by {
            assert(ab[k] == a[k]);
        }
        assert(first_failing(ab, config, i));
        lemma_first_finding(ab, config, i);
        lemma_first_finding(a, config, i);
    } else {
        assert forall|k: int| 0 <= k < a.len() implies finding(#[trigger] a[k], config) is None by {
            if finding(a[k], config) is Some {
                lemma_some_failing(a, config, k);
            }
        }
        if exists|j: int| first_failing(b, config, j) {
            let j = choose|j: int| first_failing(b, config, j);
            assert(first_failing(b, config, j));
            assert(ab[a.len() + j] == b[j]);
            assert forall|k: int| 0 <= k < a.len() + j implies finding(#[trigger] ab[k], config) is None by {
                if k < a.len() {
                    assert(ab[k] == a[k]);
                } else {
                    assert(ab[k] == b[k - a.len()]);
                }
            }
            assert(first_failing(ab, config, a.len() + j));
            lemma_first_finding(ab, config, a.len() + j);
            lemma_first_finding(b, config, j);
        } else {
            assert forall|k: int| 0 <= k < b.len() implies finding(#[trigger] b[k], config) is None by {
                if finding(b[k], config) is Some {
                    lemma_some_failing(b, config, k);
                }
            }
            assert forall|k: int| 0 <= k < ab.len() implies finding(#[trigger] ab[k], config) is None by {
                if k < a.len() {
                    assert(ab[k] == a[k]);
                } else {
                    assert(ab[k] == b[k - a.len()]);
                }
            }
            lemma_nothing_found(ab, config);
        }
    }
}

/// Where some requirement fails, there is a first one that does.
pub proof fn lemma_some_failing(reqs: Seq<Requirement>, config: AppConfigView, i: int)
    requires
        0 <= i < reqs.len(),
        finding(reqs[i], config) is Some,
    ensures
        exists|j: int| first_failing(reqs, config, j) && j <= i,
    decreases i,
{
    if exists|k: int| 0 <= k < i && finding(#[trigger] reqs[k], config) is Some {
        let k = choose|k: int| 0 <= k < i && finding(#[trigger] reqs[k], config) is Some;
        lemma_some_failing(reqs, config, k);
    } else {
        assert(first_failing(reqs, config, i));
    }
}

/// Checks every requirement of the specification, plain variables first and
/// secrets after them: a key that must be given has a value in one of the
/// two namespaces, a declared pattern compiles, and a value that is there
/// matches it.
pub fn validate_env_defined_and_valid(
    spec_doc: (&str, &str, &AppSpec),
    config_doc: (&str, &str, &AppConfig),
) -> (outcome: Result<(), ConfigError>)
    ensures
        outcome_is(
            outcome,
            match first_finding(all_requirements(spec_doc.2.deep_view()), config_doc.2.deep_view()) {
                Some(found) => Some(
                    finding_error(
                        Source { name: spec_doc.0@, text: spec_doc.1@ },
                        Source { name: config_doc.0@, text: config_doc.1@ },
                        found,
                    ),
                ),
                None => None,
            },
        ),
{
    let (spec_name, spec_text, spec) = spec_doc;
    proof {
        lemma_first_finding_concat(
            requirements_of(spec.deep_view().env),
            requirements_of(spec.deep_view().secrets),
            config_doc.2.deep_view(),
        );
    }
    match check_requirements((spec_name, spec_text), config_doc, &spec.env) {
        Ok(()) => {},
        Err(e) => {
            return Err(e);
        },
    }
    check_requirements((spec_name, spec_text), config_doc, &spec.secrets)
}

/// Checks that no key declared as a secret is defined as a plain variable.
pub fn validate_no_secret_defined_as_env(
    spec_doc: (&str, &str, &AppSpec),
    config_doc: (&str, &str, &AppConfig),
) -> (outcome: Result<(), ConfigError>)
    ensures
        outcome_is(
            outcome,
            match exposed_secret(
                requirements_of(spec_doc.2.deep_view().secrets),
                config_doc.2.deep_view().env,
            ) {
                Some(def) => Some(
                    ConfigErrorView::SecretDefinedAsEnv {
                        src: Source { name: config_doc.0@, text: config_doc.1@ },
                        def,
                    },
                ),
                None => None,
            },
        ),
{
    let (_, _, spec) = spec_doc;
    let (config_name, config_text, config) = config_doc;
    let ghost secrets = requirements_of(spec.deep_view().secrets);
    let ghost env = config.deep_view().env;
    let mut i: usize = 0;
    while i < spec.secrets.len()
        invariant
            i <= spec.secrets.len(),
            secrets == requirements_of(spec.deep_view().secrets),
            secrets.len() == spec.secrets.len(),
            env == config.deep_view().env,
            spec == spec_doc.2,
            (config_name, config_text, config) == config_doc,
            forall|k: int| 0 <= k < i ==> !binds(env, (#[trigger] secrets[k]).key),
        decreases spec.secrets.len() - i,
    {
        let item = &spec.secrets[i];
        assert(item.deep_view() == spec.deep_view().secrets[i as int]);
        assert(secrets[i as int] == requirement_of(item.deep_view()));
        let env_spec = item.get_ref().to_env_spec();
        let record = canonical_ref(&env_spec);
        if let Some((key_span, _)) = config.env.get_key_value(record.key.as_str()) {
            proof {
                assert(record.key@ == secrets[i as int].key);
                assert(lookup(env, secrets[i as int].key) is Some);
                assert(lookup(env, secrets[i as int].key).unwrap().span == key_span);
                assert(first_exposed(secrets, env, i as int));
                lemma_exposed_secret(secrets, env, i as int);
            }
            return Err(
                ConfigError::SecretDefinedAsEnv {
                    src: NamedSource::new(config_name, config_text),
                    def: key_span,
                },
            );
        }
        i = i + 1;
    }
    proof {
        lemma_nothing_exposed(secrets, env);
    }
    Ok(())
}

/// The verdict on a pair of documents: the error of the first check that
/// fails, the checks taken in their fixed order, or nothing where all
/// pass. Keys declared twice in the specification come first, then keys
/// defined twice in the configuration, then what the requirements find,
/// then secrets defined as plain variables.
pub open spec fn validation_outcome(
    spec_src: Source,
    spec: AppSpecView,
    config_src: Source,
    config: AppConfigView,
) -> Option<ConfigErrorView> {
    if let Some((prev_def, redef)) = duplicate_report(spec_declarations(spec)) {
        Some(ConfigErrorView::DuplicateSpecEnv { src: spec_src, prev_def, redef })
    } else if let Some((prev_def, redef)) = duplicate_report(config_declarations(config)) {
        Some(ConfigErrorView::DuplicateConfigEnv { src: config_src, prev_def, redef })
    } else if let Some(found) = first_finding(all_requirements(spec), config) {
        Some(finding_error(spec_src, config_src, found))
    } else if let Some(def) = exposed_secret(requirements_of(spec.secrets), config.env) {
        Some(ConfigErrorView::SecretDefinedAsEnv { src: config_src, def })
    } else {
        None
    }
}

/// Checks a configuration against a specification. Each document comes
/// with its name and its text, which the diagnostic carries along. The
/// check passes exactly where the two documents are consistent.
pub fn validate(spec_doc: (&str, &str, &AppSpec), config_doc: (&str, &str, &AppConfig)) -> (outcome: Result<
    (),
    ConfigError,
>)
    ensures
        outcome_is(
            outcome,
            validation_outcome(
                Source { name: spec_doc.0@, text: spec_doc.1@ },
                spec_doc.2.deep_view(),
                Source { name: config_doc.0@, text: config_doc.1@ },
                config_doc.2.deep_view(),
            ),
        ),
        outcome is Ok <==> consistent(spec_doc.2.deep_view(), config_doc.2.deep_view()),
{
    proof {
        validation_succeeds_on_consistent_documents(
            Source { name: spec_doc.0@, text: spec_doc.1@ },
            spec_doc.2.deep_view(),
            Source { name: config_doc.0@, text: config_doc.1@ },
            config_doc.2.deep_view(),
        );
    }
    match validate_spec_no_dup_env_or_secret(spec_doc) {
        Ok(()) => {},
        Err(e) => {
            return Err(e);
        },
    }
    match validate_config_no_dup_env_or_secret(config_doc) {
        Ok(()) => {},
        Err(e) => {
            return Err(e);
        },
    }
    match validate_env_defined_and_valid(spec_doc, config_doc) {
        Ok(()) => {},
        Err(e) => {
            return Err(e);
        },
    }
    validate_no_secret_defined_as_env(spec_doc, config_doc)
}

/// A specification with the entry at position `i` of one of its
/// requirement lists written out as the record that a bare key stands for.
pub open spec fn written_out(spec: AppSpecView, among_secrets: bool, i: int, key: Seq<char>) -> AppSpecView {
    let record = EnvSpecOrPlainView::Spec(crate::config::EnvSpecView { key, regex: None, optional: false });
    if among_secrets {
        AppSpecView {
            secrets: spec.secrets.update(i, LocatedView { value: record, span: spec.secrets[i].span }),
            ..spec
        }
    } else {
        AppSpecView { env: spec.env.update(i, LocatedView { value: record, span: spec.env[i].span }), ..spec }
    }
}

/// A bare key validates like the record with that key, no pattern and the
/// key not optional: writing the record out in place of the bare key
/// changes the verdict on no configuration.
pub proof fn shorthand_validates_alike(
    spec_src: Source,
    spec: AppSpecView,
    config_src: Source,
    config: AppConfigView,
    among_secrets: bool,
    i: int,
    key: Seq<char>,
)
    requires
        among_secrets ==> 0 <= i < spec.secrets.len() && spec.secrets[i].value == EnvSpecOrPlainView::Plain(key),
        !among_secrets ==> 0 <= i < spec.env.len() && spec.env[i].value == EnvSpecOrPlainView::Plain(key),
    ensures
        validation_outcome(spec_src, written_out(spec, among_secrets, i, key), config_src, config)
            == validation_outcome(spec_src, spec, config_src, config),
{
    let other = written_out(spec, among_secrets, i, key);
    assert(requirements_of(other.env) =~= requirements_of(spec.env));
    assert(requirements_of(other.secrets) =~= requirements_of(spec.secrets));
    assert(spec_declarations(other) =~= spec_declarations(spec));
}

/// Which of two ranges is named the previous definition depends on where
/// they start in the text, not on which was met first.
pub proof fn tie_break_ignores_meeting_order(a: SourceSpan, b: SourceSpan)
    requires
        a.start != b.start,
    ensures
        in_text_order(a, b) == in_text_order(b, a),
        in_text_order(a, b).0.start < in_text_order(a, b).1.start,
{
}

/// A reported duplicate names two declarations of one key, and the
/// previous definition does not start after the redefinition.
pub proof fn duplicate_report_is_ordered(decls: Seq<Declaration>)
    requires
        duplicate_report(decls) is Some,
    ensures
        duplicate_report(decls).unwrap().0.start <= duplicate_report(decls).unwrap().1.start,
        exists|i: int, j: int|
            0 <= i < j < decls.len() && decls[i].key == decls[j].key && (duplicate_report(decls) == Some(
                (#[trigger] decls[i].span, #[trigger] decls[j].span),
            ) || duplicate_report(decls) == Some((decls[j].span, decls[i].span))),
{
    let j = choose|j: int| first_redeclared(decls, j);
    assert(first_redeclared(decls, j));
    let i = choose|i: int| 0 <= i < j && (#[trigger] decls[i]).key == decls[j].key;
    assert(0 <= i < j && decls[i].key == decls[j].key);
    assert(duplicate_report(decls) == Some(in_text_order(decls[i].span, decls[j].span)));
}

/// A requirement that must be met and whose key is in neither namespace
/// makes the requirement check fail; and where it is the first requirement
/// to fail, the failure is the undefined variable at the requirement's own
/// place in the specification.
pub proof fn required_key_must_be_defined(
    spec_src: Source,
    config_src: Source,
    reqs: Seq<Requirement>,
    config: AppConfigView,
    i: int,
)
    requires
        0 <= i < reqs.len(),
        !reqs[i].optional,
        !binds(config.env, reqs[i].key),
        !binds(config.secrets, reqs[i].key),
    ensures
        finding(reqs[i], config) == Some(Finding::Undefined { def: reqs[i].span }),
        first_finding(reqs, config) is Some,
        first_failing(reqs, config, i) ==> first_finding(reqs, config) == Some(
            Finding::Undefined { def: reqs[i].span },
        ) && finding_error(spec_src, config_src, first_finding(reqs, config).unwrap())
            == (ConfigErrorView::UndefinedEnv { src: spec_src, def: reqs[i].span }),
{
    lemma_some_failing(reqs, config, i);
    let j = choose|j: int| first_failing(reqs, config, j) && j <= i;
    lemma_first_finding(reqs, config, j);
    if first_failing(reqs, config, i) {
        lemma_first_finding(reqs, config, i);
    }
}

/// A specification with a requirement that must be met and whose key is in
/// neither namespace of the configuration does not pass validation.
pub proof fn unmet_requirement_fails_validation(
    spec_src: Source,
    spec: AppSpecView,
    config_src: Source,
    config: AppConfigView,
    i: int,
)
    requires
        0 <= i < all_requirements(spec).len(),
        !all_requirements(spec)[i].optional,
        !binds(config.env, all_requirements(spec)[i].key),
        !binds(config.secrets, all_requirements(spec)[i].key),
    ensures
        validation_outcome(spec_src, spec, config_src, config) is Some,
{
    required_key_must_be_defined(spec_src, config_src, all_requirements(spec), config, i);
}

/// An undefined variable is only ever reported for a requirement that must
/// be met and has no value in either namespace, and at that requirement's
/// place.
pub proof fn undefined_points_at_a_requirement(reqs: Seq<Requirement>, config: AppConfigView, def: SourceSpan)
    requires
        first_finding(reqs, config) == Some(Finding::Undefined { def }),
    ensures
        exists|i: int|
            0 <= i < reqs.len() && (#[trigger] reqs[i]).span == def && !reqs[i].optional && !binds(
                config.env,
                reqs[i].key,
            ) && !binds(config.secrets, reqs[i].key),
{
    let i = choose|i: int| first_failing(reqs, config, i);
    assert(first_failing(reqs, config, i));
    assert(finding(reqs[i], config) == Some(Finding::Undefined { def }));
    assert(reqs[i].span == def);
}

/// A declared pattern that does not compile is reported for a requirement
/// that is optional or has a value, and no value changes that: the pattern
/// is compiled before any value is held against it.
pub proof fn bad_pattern_is_reported_whatever_the_value(req: Requirement, config: AppConfigView, pattern: Seq<char>)
    requires
        req.regex == Some(pattern),
        !crate::pattern::regex_compiles(pattern),
        req.optional || supplied(config, req.key) is Some,
    ensures
        finding(req, config) == Some(Finding::InvalidRegex { def: req.span }),
{
}

/// A key declared as a secret that is defined as a plain variable makes
/// validation fail, whether or not the key is also among the secrets of the
/// configuration; and where the other three checks pass, the failure is a
/// secret defined as a plain variable, at a place in the configuration.
pub proof fn secret_must_not_be_plain(
    spec_src: Source,
    spec: AppSpecView,
    config_src: Source,
    config: AppConfigView,
    i: int,
)
    requires
        0 <= i < spec.secrets.len(),
        binds(config.env, requirement_of(spec.secrets[i]).key),
    ensures
        validation_outcome(spec_src, spec, config_src, config) is Some,
        exposed_secret(requirements_of(spec.secrets), config.env) is Some,
        duplicate_report(spec_declarations(spec)) is None && duplicate_report(config_declarations(config)) is None
            && first_finding(all_requirements(spec), config) is None ==> validation_outcome(
            spec_src,
            spec,
            config_src,
            config,
        ) == Some(
            ConfigErrorView::SecretDefinedAsEnv {
                src: config_src,
                def: exposed_secret(requirements_of(spec.secrets), config.env).unwrap(),
            },
        ),
{
    let secrets = requirements_of(spec.secrets);
    lemma_some_exposed(secrets, config.env, i);
    let j = choose|j: int| first_exposed(secrets, config.env, j) && j <= i;
    lemma_exposed_secret(secrets, config.env, j);
}

/// Where some secret is defined as a plain variable, there is a first one
/// that is.
pub proof fn lemma_some_exposed(secrets: Seq<Requirement>, env: Seq<Binding<Seq<char>>>, i: int)
    requires
        0 <= i < secrets.len(),
        binds(env, secrets[i].key),
    ensures
        exists|j: int| first_exposed(secrets, env, j) && j <= i,
    decreases i,
{
    if exists|k: int| 0 <= k < i && binds(env, (#[trigger] secrets[k]).key) {
        let k = choose|k: int| 0 <= k < i && binds(env, (#[trigger] secrets[k]).key);
        lemma_some_exposed(secrets, env, k);
    } else {
        assert(first_exposed(secrets, env, i));
    }
}

/// Whether no key is declared twice.
pub open spec fn keys_unique(decls: Seq<Declaration>) -> bool {
    forall|i: int, j: int| 0 <= i < j < decls.len() ==> (#[trigger] decls[i]).key != (#[trigger] decls[j]).key
}

/// Whether a requirement is met: a key that must be given has a value in
/// one of the two namespaces, a declared pattern compiles, and the value
/// that is there matches it.
pub open spec fn met(req: Requirement, config: AppConfigView) -> bool {
    &&& req.optional || binds(config.env, req.key) || binds(config.secrets, req.key)
    &&& req.regex matches Some(pattern) ==> crate::pattern::regex_compiles(pattern) && (supplied(
        config,
        req.key,
    ) matches Some(b) ==> crate::pattern::regex_accepts(pattern, b.value))
}

/// What validation stands for: no key is declared twice in the
/// specification nor defined twice in the configuration, every requirement
/// is met, and no key declared as a secret is defined as a plain variable.
pub open spec fn consistent(spec: AppSpecView, config: AppConfigView) -> bool {
    &&& keys_unique(spec_declarations(spec))
    &&& keys_unique(config_declarations(config))
    &&& forall|i: int|
        0 <= i < all_requirements(spec).len() ==> met(#[trigger] all_requirements(spec)[i], config)
    &&& forall|i: int|
        0 <= i < spec.secrets.len() ==> !binds(config.env, requirement_of(#[trigger] spec.secrets[i]).key)
}

/// Where some key is declared again, there is a first position at which
/// one is.
pub proof fn lemma_some_redeclared(decls: Seq<Declaration>, j: int)
    requires
        0 <= j < decls.len(),
        redeclared(decls, j),
    ensures
        exists|k: int| first_redeclared(decls, k) && k <= j,
    decreases j,
{
    if exists|k: int| 0 <= k < j && #[trigger] redeclared(decls, k) {
        let k = choose|k: int| 0 <= k < j && #[trigger] redeclared(decls, k);
        lemma_some_redeclared(decls, k);
    } else {
        assert(first_redeclared(decls, j));
    }
}

/// Nothing is reported exactly where no key is declared twice.
pub proof fn no_duplicate_means_unique(decls: Seq<Declaration>)
    ensures
        duplicate_report(decls) is None <==> keys_unique(decls),
{
    if duplicate_report(decls) is None {
        assert forall|i: int, j: int| 0 <= i < j < decls.len() implies (#[trigger] decls[i]).key != (
        #[trigger] decls[j]).key by {
            if decls[i].key == decls[j].key {
                assert(redeclared(decls, j));
                lemma_some_redeclared(decls, j);
            }
        }
    } else {
        let j = choose|j: int| first_redeclared(decls, j);
        assert(first_redeclared(decls, j));
        let i = choose|i: int| 0 <= i < j && (#[trigger] decls[i]).key == decls[j].key;
        assert(decls[i].key == decls[j].key);
    }
}

/// A requirement finds nothing wrong exactly where it is met.
pub proof fn nothing_found_means_met(req: Requirement, config: AppConfigView)
    ensures
        finding(req, config) is None <==> met(req, config),
{
}

/// Validation succeeds exactly on the pairs of documents that are
/// consistent.
pub proof fn validation_succeeds_on_consistent_documents(
    spec_src: Source,
    spec: AppSpecView,
    config_src: Source,
    config: AppConfigView,
)
    ensures
        validation_outcome(spec_src, spec, config_src, config) is None <==> consistent(spec, config),
{
    let reqs = all_requirements(spec);
    let secrets = requirements_of(spec.secrets);
    no_duplicate_means_unique(spec_declarations(spec));
    no_duplicate_means_unique(config_declarations(config));
    assert forall|i: int| 0 <= i < reqs.len() implies (finding(#[trigger] reqs[i], config) is None <==> met(
        reqs[i],
        config,
    )) by {
        nothing_found_means_met(reqs[i], config);
    }
    if first_finding(reqs, config) is None {
        assert forall|i: int| 0 <= i < reqs.len() implies met(#[trigger] reqs[i], config) by {
            if finding(reqs[i], config) is Some {
                lemma_some_failing(reqs, config, i);
            }
        }
    } else {
        let i = choose|i: int| first_failing(reqs, config, i);
        assert(first_failing(reqs, config, i));
        assert(!met(reqs[i], config));
    }
    if exposed_secret(secrets, config.env) is None {
        assert forall|i: int| 0 <= i < spec.secrets.len() implies !binds(
            config.env,
            requirement_of(#[trigger] spec.secrets[i]).key,
        ) by {
            assert(secrets[i] == requirement_of(spec.secrets[i]));
            if binds(config.env, secrets[i].key) {
                lemma_some_exposed(secrets, config.env, i);
            }
        }
    } else {
        let i = choose|i: int| first_exposed(secrets, config.env, i);
        assert(first_exposed(secrets, config.env, i));
        assert(secrets[i] == requirement_of(spec.secrets[i]));
    }
}

} // verus!
