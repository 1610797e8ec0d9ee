//! Diagnostics for a person to read: the message of an error with the
//! lines of the document it points into. The `miette` crate draws the
//! report.

use crate::config::{AppConfigView, AppSpecView};
use crate::config_loader::{
    byte_len, load_outcome, loaded_config, loaded_spec, parsed_tree, ConfigError, ConfigErrorView,
};
use crate::validator::{
    all_requirements, config_declarations, duplicate_report, duplicate_report_is_ordered, first_exposed,
    first_failing, first_finding, requirements_of, spec_declarations, validation_outcome, Declaration,
};
use crate::decode::{decoded_config_is_placed, decoded_spec_is_placed};
use crate::keyed::{binds, lookup, position, spans_fit, Binding};
use crate::span::{NamedSource, Source, SourceSpan};
use vstd::prelude::*;

verus! {

/// A range of the document with the words that explain it.
#[derive(Debug)]
pub struct Label {
    pub text: String,
    pub span: SourceSpan,
}

/// A `Label` over plain sequences of characters.
pub struct LabelView {
    pub text: Seq<char>,
    pub span: SourceSpan,
}

impl DeepView for Label {
    type V = LabelView;

    open spec fn deep_view(&self) -> LabelView {
        LabelView { text: self.text@, span: self.span }
    }
}

/// What a report shows: the message, a code that names the kind of error,
/// a hint where there is one, and the document with the ranges at fault.
#[derive(Debug)]
pub struct Diagnostic {
    pub message: String,
    pub code: String,
    pub help: Option<String>,
    pub src: NamedSource,
    pub labels: Vec<Label>,
}

/// A `Diagnostic` over plain sequences of characters.
pub struct DiagnosticView {
    pub message: Seq<char>,
    pub code: Seq<char>,
    pub help: Option<Seq<char>>,
    pub src: Source,
    pub labels: Seq<LabelView>,
}

impl DeepView for Diagnostic {
    type V = DiagnosticView;

    open spec fn deep_view(&self) -> DiagnosticView {
        DiagnosticView {
            message: self.message@,
            code: self.code@,
            help: self.help.deep_view(),
            src: self.src.deep_view(),
            labels: self.labels.deep_view(),
        }
    }
}

impl DiagnosticView {
    /// Whether every labelled range lies inside the text of the document.
    pub open spec fn well_placed(self) -> bool {
        forall|i: int| 0 <= i < self.labels.len() ==> (#[trigger] self.labels[i]).span.fits(byte_len(self.src.text))
    }
}

/// The report that `miette::GraphicalReportHandler` draws of a diagnostic,
/// in the theme `GraphicalTheme::unicode_nocolor`.
pub uninterp spec fn miette_report(diagnostic: DiagnosticView) -> Seq<char>;

/// Draws a diagnostic with `miette::GraphicalReportHandler::render_report`,
/// without colours. Trusted: the report depends on the diagnostic alone.
/// Ranges that are out of order are kept away from it.
#[verifier::external_body]
fn draw(d: &Diagnostic) -> (report: String)
    requires
        d.deep_view().well_placed(),
    ensures
        report@ == miette_report(d.deep_view()),
{
    let mut labels = Vec::new();
    for l in d.labels.iter() {
        labels.push(miette::LabeledSpan::new_with_span(Some(l.text.clone()), l.span.start..l.span.end));
    }
    let mut diag = miette::MietteDiagnostic::new(d.message.clone()).with_code(d.code.clone()).with_labels(labels);
    diag.help = d.help.clone();
    let src = miette::NamedSource::new(&d.src.name, d.src.text.clone());
    let report = miette::Report::new(diag).with_source_code(src);
    let handler = miette::GraphicalReportHandler::new_themed(miette::GraphicalTheme::unicode_nocolor());
    let mut out = String::new();
    let _ = handler.render_report(&mut out, report.as_ref());
    out
}

impl Diagnostic {
    /// Checks that every labelled range lies inside the text.
    pub fn is_well_placed(&self) -> (ok: bool)
        ensures
            ok == self.deep_view().well_placed(),
    {
        let len = self.src.text.as_str().as_bytes().len();
        let mut i: usize = 0;
        while i < self.labels.len()
            invariant
                i <= self.labels.len(),
                len == byte_len(self.deep_view().src.text),
                forall|k: int| 0 <= k < i ==> (#[trigger] self.deep_view().labels[k]).span.fits(len as nat),
            decreases self.labels.len() - i,
        {
            assert(self.labels[i as int].deep_view() == self.deep_view().labels[i as int]);
            if !self.labels[i].span.check_fits(len) {
                return false;
            }
            i = i + 1;
        }
        true
    }

    /// The report of the diagnostic as text, or nothing where a labelled
    /// range does not lie inside the text of the document.
    pub fn render(&self) -> (report: Option<String>)
        ensures
            report.deep_view() == if self.deep_view().well_placed() {
                Some(miette_report(self.deep_view()))
            } else {
                None
            },
    {
        if self.is_well_placed() {
            Some(draw(self))
        } else {
            None
        }
    }
}

/// The diagnostic that reports an error: what went wrong, under which
/// code, and the ranges at fault with the words for each.
pub open spec fn diagnostic_of(error: ConfigErrorView) -> DiagnosticView {
    match error {
        ConfigErrorView::Parse { src, bad_bit } => DiagnosticView {
            message: "cannot parse config"@,
            code: "boatctl::config::parse"@,
            help: None,
            src,
            labels: match bad_bit {
                Some(span) => seq![LabelView { text: "This bit here"@, span }],
                None => seq![],
            },
        },
        ConfigErrorView::DuplicateSpecEnv { src, prev_def, redef } => DiagnosticView {
            message: "duplicate environment variable in spec"@,
            code: "boatctl::config::dup_env"@,
            help: None,
            src,
            labels: seq![
                LabelView { text: "previous definition"@, span: prev_def },
                LabelView { text: "redefined here"@, span: redef },
            ],
        },
        ConfigErrorView::DuplicateConfigEnv { src, prev_def, redef } => DiagnosticView {
            message: "duplicate environment variable in config"@,
            code: "boatctl::config::dup_env"@,
            help: None,
            src,
            labels: seq![
                LabelView { text: "previous definition"@, span: prev_def },
                LabelView { text: "redefined here"@, span: redef },
            ],
        },
        ConfigErrorView::UndefinedEnv { src, def } => DiagnosticView {
            message: "undefined environment variable"@,
            code: "boatctl::config::undefined_env"@,
            help: None,
            src,
            labels: seq![LabelView { text: "specified here"@, span: def }],
        },
        ConfigErrorView::InvalidEnvRegex { src, def } => DiagnosticView {
            message: "invalid regex for environment variable"@,
            code: "boatctl::config::invalid_regex"@,
            help: None,
            src,
            labels: seq![LabelView { text: "specified here"@, span: def }],
        },
        ConfigErrorView::EnvDoesNotMatchSpec { src, def, help } => DiagnosticView {
            message: "environment variable value does not match spec"@,
            code: "boatctl::config::invalid_env"@,
            help: Some(help),
            src,
            labels: seq![LabelView { text: "defined here"@, span: def }],
        },
        ConfigErrorView::SecretDefinedAsEnv { src, def } => DiagnosticView {
            message: "secret defined as env"@,
            code: "boatctl::config::secret_as_env"@,
            help: None,
            src,
            labels: seq![LabelView { text: "defined as env here"@, span: def }],
        },
    }
}

fn copy_source(src: &NamedSource) -> (copy: NamedSource)
    ensures
        copy.deep_view() == src.deep_view(),
{
    NamedSource { name: src.name.clone(), text: src.text.clone() }
}

fn label(text: &str, span: SourceSpan) -> (l: Label)
    ensures
        l.deep_view() == (LabelView { text: text@, span }),
{
    Label { text: text.to_owned(), span }
}

impl ConfigError {
    /// The diagnostic that reports the error.
    pub fn to_diagnostic(&self) -> (d: Diagnostic)
        ensures
            d.deep_view() == diagnostic_of(self.deep_view()),
    {
        let mut labels: Vec<Label> = Vec::new();
        let d = match self {
            ConfigError::Parse { src, bad_bit } => {
                if let Some(span) = bad_bit {
                    labels.push(label("This bit here", *span));
                }
                Diagnostic {
                    message: "cannot parse config".to_owned(),
                    code: "boatctl::config::parse".to_owned(),
                    help: None,
                    src: copy_source(src),
                    labels,
                }
            },
            ConfigError::DuplicateSpecEnv { src, prev_def, redef } => {
                labels.push(label("previous definition", *prev_def));
                labels.push(label("redefined here", *redef));
                Diagnostic {
                    message: "duplicate environment variable in spec".to_owned(),
                    code: "boatctl::config::dup_env".to_owned(),
                    help: None,
                    src: copy_source(src),
                    labels,
                }
            },
            ConfigError::DuplicateConfigEnv { src, prev_def, redef } => {
                labels.push(label("previous definition", *prev_def));
                labels.push(label("redefined here", *redef));
                Diagnostic {
                    message: "duplicate environment variable in config".to_owned(),
                    code: "boatctl::config::dup_env".to_owned(),
                    help: None,
                    src: copy_source(src),
                    labels,
                }
            },
            ConfigError::UndefinedEnv { src, def } => {
                labels.push(label("specified here", *def));
                Diagnostic {
                    message: "undefined environment variable".to_owned(),
                    code: "boatctl::config::undefined_env".to_owned(),
                    help: None,
                    src: copy_source(src),
                    labels,
                }
            },
            ConfigError::InvalidEnvRegex { src, def } => {
                labels.push(label("specified here", *def));
                Diagnostic {
                    message: "invalid regex for environment variable".to_owned(),
                    code: "boatctl::config::invalid_regex".to_owned(),
                    help: None,
                    src: copy_source(src),
                    labels,
                }
            },
            ConfigError::EnvDoesNotMatchSpec { src, def, help } => {
                labels.push(label("defined here", *def));
                Diagnostic {
                    message: "environment variable value does not match spec".to_owned(),
                    code: "boatctl::config::invalid_env".to_owned(),
                    help: Some(help.clone()),
                    src: copy_source(src),
                    labels,
                }
            },
            ConfigError::SecretDefinedAsEnv { src, def } => {
                labels.push(label("defined as env here", *def));
                Diagnostic {
                    message: "secret defined as env".to_owned(),
                    code: "boatctl::config::secret_as_env".to_owned(),
                    help: None,
                    src: copy_source(src),
                    labels,
                }
            },
        };
        assert(d.deep_view().labels =~= diagnostic_of(self.deep_view()).labels);
        d
    }

    /// The report of the error as text, or nothing where the error points
    /// outside the text of its document.
    pub fn render(&self) -> (report: Option<String>)
        ensures
            report.deep_view() == if diagnostic_of(self.deep_view()).well_placed() {
                Some(miette_report(diagnostic_of(self.deep_view())))
            } else {
                None
            },
    {
        self.to_diagnostic().render()
    }
}

proof fn lemma_lookup_fits<V>(entries: Seq<Binding<V>>, key: Seq<char>, len: nat)
    requires
        spans_fit(entries, len),
    ensures
        lookup(entries, key) matches Some(b) ==> b.span.fits(len),
{
    if binds(entries, key) {
        let p = position(entries, key);
        assert(0 <= p < entries.len() && entries[p].key == key);
        assert(entries[p].span.fits(len));
    }
}

proof fn lemma_declarations_fit(decls: Seq<Declaration>, len: nat)
    requires
        forall|k: int| 0 <= k < decls.len() ==> (#[trigger] decls[k]).span.fits(len),
        duplicate_report(decls) is Some,
    ensures
        duplicate_report(decls).unwrap().0.fits(len),
        duplicate_report(decls).unwrap().1.fits(len),
{
    duplicate_report_is_ordered(decls);
    let (i, j) = choose|i: int, j: int|
        0 <= i < j < decls.len() && decls[i].key == decls[j].key && (duplicate_report(decls) == Some(
            (#[trigger] decls[i].span, #[trigger] decls[j].span),
        ) || duplicate_report(decls) == Some((decls[j].span, decls[i].span)));
    assert(decls[i].span.fits(len));
    assert(decls[j].span.fits(len));
}

/// An error of validation points inside the text of the document it
/// names, where the specification and the configuration stand inside
/// their texts.
pub proof fn validation_errors_are_placed(
    spec_src: Source,
    spec: AppSpecView,
    config_src: Source,
    config: AppConfigView,
)
    requires
        spec.placed(byte_len(spec_src.text)),
        config.placed(byte_len(config_src.text)),
        validation_outcome(spec_src, spec, config_src, config) is Some,
    ensures
        diagnostic_of(validation_outcome(spec_src, spec, config_src, config).unwrap()).well_placed(),
{
    let spec_len = byte_len(spec_src.text);
    let config_len = byte_len(config_src.text);
    let reqs = all_requirements(spec);
    let error = validation_outcome(spec_src, spec, config_src, config).unwrap();
    let d = diagnostic_of(error);
    assert forall|k: int| 0 <= k < reqs.len() implies (#[trigger] reqs[k]).span.fits(spec_len) by {
        if k < spec.env.len() {
            assert(reqs[k].span == spec.env[k].span);
        } else {
            assert(reqs[k].span == spec.secrets[k - spec.env.len()].span);
        }
    }
    if duplicate_report(spec_declarations(spec)) is Some {
        let decls = spec_declarations(spec);
        assert forall|k: int| 0 <= k < decls.len() implies (#[trigger] decls[k]).span.fits(spec_len) by {
            assert(decls[k].span == reqs[k].span);
        }
        lemma_declarations_fit(decls, spec_len);
        assert(d.labels.len() == 2);
        assert(d.labels[0].span.fits(spec_len));
        assert(d.labels[1].span.fits(spec_len));
    } else if duplicate_report(config_declarations(config)) is Some {
        let decls = config_declarations(config);
        assert forall|k: int| 0 <= k < decls.len() implies (#[trigger] decls[k]).span.fits(config_len) by {
            if k < config.env.len() {
                assert(decls[k].span == config.env[k].span);
            } else {
                assert(decls[k].span == config.secrets[k - config.env.len()].span);
            }
        }
        lemma_declarations_fit(decls, config_len);
        assert(d.labels.len() == 2);
        assert(d.labels[0].span.fits(config_len));
        assert(d.labels[1].span.fits(config_len));
    } else if first_finding(reqs, config) is Some {
        let i = choose|i: int| first_failing(reqs, config, i);
        assert(first_failing(reqs, config, i));
        assert(reqs[i].span.fits(spec_len));
        lemma_lookup_fits(config.env, reqs[i].key, config_len);
        lemma_lookup_fits(config.secrets, reqs[i].key, config_len);
        assert(d.labels.len() == 1);
        assert(d.labels[0].span.fits(byte_len(d.src.text)));
    } else {
        let secrets = requirements_of(spec.secrets);
        let i = choose|i: int| first_exposed(secrets, config.env, i);
        lemma_lookup_fits(config.env, secrets[i].key, config_len);
        assert(d.labels.len() == 1);
        assert(d.labels[0].span.fits(config_len));
    }
}

/// Every error that loading a pair of documents can end in points inside
/// the text of the document it names, so that its report can be drawn.
pub proof fn loaded_errors_can_be_drawn(spec_src: Source, config_src: Source)
    requires
        load_outcome(spec_src, config_src) is Err,
    ensures
        diagnostic_of(load_outcome(spec_src, config_src)->Err_0).well_placed(),
{
    let spec_len = byte_len(spec_src.text);
    let config_len = byte_len(config_src.text);
    let d = diagnostic_of(load_outcome(spec_src, config_src)->Err_0);
    if let Ok(tree) = parsed_tree(spec_src.text) {
        decoded_spec_is_placed(tree, spec_len);
    }
    if let Ok(tree) = parsed_tree(config_src.text) {
        decoded_config_is_placed(tree, config_len);
    }
    match loaded_spec(spec_src.text) {
        Err(bad_bit) => {
            if let Some(span) = bad_bit {
                assert(d.labels.len() == 1);
                assert(d.labels[0].span == span);
            }
        },
        Ok(spec) => match loaded_config(config_src.text) {
            Err(bad_bit) => {
                if let Some(span) = bad_bit {
                    assert(d.labels.len() == 1);
                    assert(d.labels[0].span == span);
                }
            },
            Ok(config) => {
                validation_errors_are_placed(spec_src, spec, config_src, config);
            },
        },
    }
}

} // verus!
