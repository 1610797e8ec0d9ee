//! Loads the two documents: parses each text, reads the typed document
//! out of the tree, and hands both to the validator. Nothing is handed out
//! on failure but the one error.

use crate::config::{normalize, AppConfig, AppConfigView, AppSpec, AppSpecView};
use crate::decode::{decode_config, decode_spec, decoded_config, decoded_spec, Misplaced};
use crate::document::{parse_document, toml_document, Node, SyntaxError};
use crate::report::{diagnostic_of, loaded_errors_can_be_drawn};
use crate::span::{NamedSource, Source, SourceSpan};
use crate::validator::{validate, validation_outcome};
use vstd::prelude::*;

verus! {

/// Why a pair of documents was turned down. Every variant carries the
/// document that the ranges point into.
#[derive(Debug)]
pub enum ConfigError {
    /// The text is no document of the expected shape.
    Parse { src: NamedSource, bad_bit: Option<SourceSpan> },
    /// The specification declares a key twice.
    DuplicateSpecEnv { src: NamedSource, prev_def: SourceSpan, redef: SourceSpan },
    /// The configuration defines a key twice.
    DuplicateConfigEnv { src: NamedSource, prev_def: SourceSpan, redef: SourceSpan },
    /// A key that must be given has no value.
    UndefinedEnv { src: NamedSource, def: SourceSpan },
    /// The pattern declared for a key is no regular expression.
    InvalidEnvRegex { src: NamedSource, def: SourceSpan },
    /// The value given for a key does not match its pattern.
    EnvDoesNotMatchSpec { src: NamedSource, def: SourceSpan, help: String },
    /// A key declared as a secret is given as a plain variable.
    SecretDefinedAsEnv { src: NamedSource, def: SourceSpan },
}

/// A `ConfigError` over plain sequences of characters.
pub enum ConfigErrorView {
    Parse { src: Source, bad_bit: Option<SourceSpan> },
    DuplicateSpecEnv { src: Source, prev_def: SourceSpan, redef: SourceSpan },
    DuplicateConfigEnv { src: Source, prev_def: SourceSpan, redef: SourceSpan },
    UndefinedEnv { src: Source, def: SourceSpan },
    InvalidEnvRegex { src: Source, def: SourceSpan },
    EnvDoesNotMatchSpec { src: Source, def: SourceSpan, help: Seq<char> },
    SecretDefinedAsEnv { src: Source, def: SourceSpan },
}

impl DeepView for ConfigError {
    type V = ConfigErrorView;

    open spec fn deep_view(&self) -> ConfigErrorView {
        match self {
            ConfigError::Parse { src, bad_bit } => ConfigErrorView::Parse {
                src: src.deep_view(),
                bad_bit: *bad_bit,
            },
            ConfigError::DuplicateSpecEnv { src, prev_def, redef } => ConfigErrorView::DuplicateSpecEnv {
                src: src.deep_view(),
                prev_def: *prev_def,
                redef: *redef,
            },
            ConfigError::DuplicateConfigEnv { src, prev_def, redef } => ConfigErrorView::DuplicateConfigEnv {
                src: src.deep_view(),
                prev_def: *prev_def,
                redef: *redef,
            },
            ConfigError::UndefinedEnv { src, def } => ConfigErrorView::UndefinedEnv {
                src: src.deep_view(),
                def: *def,
            },
            ConfigError::InvalidEnvRegex { src, def } => ConfigErrorView::InvalidEnvRegex {
                src: src.deep_view(),
                def: *def,
            },
            ConfigError::EnvDoesNotMatchSpec { src, def, help } => ConfigErrorView::EnvDoesNotMatchSpec {
                src: src.deep_view(),
                def: *def,
                help: help@,
            },
            ConfigError::SecretDefinedAsEnv { src, def } => ConfigErrorView::SecretDefinedAsEnv {
                src: src.deep_view(),
                def: *def,
            },
        }
    }
}

/// The number of bytes that a text takes.
pub open spec fn byte_len(text: Seq<char>) -> nat {
    vstd::utf8::encode_utf8(text).len()
}

/// The single point that a parse error marks: the start of the range at
/// fault.
pub open spec fn bad_bit_at(place: Misplaced) -> Option<SourceSpan> {
    match place {
        Some(span) => Some(SourceSpan { start: span.start, end: span.start }),
        None => None,
    }
}

/// What becomes of the outcome of the parser for a text of `len` bytes: a
/// tree is passed on where all of its ranges lie inside the text, and an
/// error leaves the point at which the range at fault starts, where that
/// lies inside the text.
pub open spec fn checked_outcome(parsed: Result<Node, SyntaxError>, len: nat) -> Result<Node, Option<SourceSpan>> {
    match parsed {
        Ok(tree) => if tree.fits(len) {
            Ok(tree)
        } else {
            Err(None)
        },
        Err(e) => match e.span {
            Some(span) => if span.start <= len {
                Err(bad_bit_at(Some(span)))
            } else {
                Err(None)
            },
            None => Err(None),
        },
    }
}

/// Takes the outcome of the parser for the document `name` with the text
/// `text` and hands out the tree or the parse error.
pub fn check_parsed(name: &str, text: &str, parsed: Result<Node, SyntaxError>) -> (checked: Result<
    Node,
    ConfigError,
>)
    ensures
        match checked_outcome(parsed, byte_len(text@)) {
            Ok(tree) => checked matches Ok(t) && t == tree,
            Err(bad_bit) => checked matches Err(e) && e.deep_view() == (ConfigErrorView::Parse {
                src: Source { name: name@, text: text@ },
                bad_bit,
            }),
        },
{
    let len = text.as_bytes().len();
    match parsed {
        Ok(tree) => {
            if tree.check_fits(len) {
                Ok(tree)
            } else {
                Err(ConfigError::Parse { src: NamedSource::new(name, text), bad_bit: None })
            }
        },
        Err(e) => {
            let bad_bit = match e.span {
                Some(span) => if span.start <= len {
                    Some(SourceSpan::point(span.start))
                } else {
                    None
                },
                None => None,
            };
            Err(ConfigError::Parse { src: NamedSource::new(name, text), bad_bit })
        },
    }
}

/// The tree that a text parses into, or the point that the error marks. A
/// tree is only handed out where all of its ranges lie inside the text.
pub open spec fn parsed_tree(text: Seq<char>) -> Result<Node, Option<SourceSpan>> {
    checked_outcome(toml_document(text), byte_len(text))
}

/// Parses the text of a document into a tree. Nothing is handed out on
/// failure but the error, which carries the name and the text.
pub fn parse_toml(name: &str, text: &str) -> (parsed: Result<Node, ConfigError>)
    ensures
        match parsed_tree(text@) {
            Ok(tree) => parsed matches Ok(t) && t == tree,
            Err(bad_bit) => parsed matches Err(e) && e.deep_view() == (ConfigErrorView::Parse {
                src: Source { name: name@, text: text@ },
                bad_bit,
            }),
        },
        parsed matches Ok(t) ==> t.fits(byte_len(text@)),
{
    check_parsed(name, text, parse_document(text))
}

/// The specification that a text holds, or the point that the error marks.
pub open spec fn loaded_spec(text: Seq<char>) -> Result<AppSpecView, Option<SourceSpan>> {
    match parsed_tree(text) {
        Err(bad_bit) => Err(bad_bit),
        Ok(tree) => match decoded_spec(tree) {
            Ok(spec) => Ok(spec),
            Err(at) => Err(bad_bit_at(at)),
        },
    }
}

/// The configuration that a text holds, normalized, or the point that the
/// error marks.
pub open spec fn loaded_config(text: Seq<char>) -> Result<AppConfigView, Option<SourceSpan>> {
    match parsed_tree(text) {
        Err(bad_bit) => Err(bad_bit),
        Ok(tree) => match decoded_config(tree) {
            Ok(config) => Ok(config.normalized()),
            Err(at) => Err(bad_bit_at(at)),
        },
    }
}

fn parse_failure(name: &str, text: &str, at: Misplaced) -> (e: ConfigError)
    ensures
        e.deep_view() == (ConfigErrorView::Parse {
            src: Source { name: name@, text: text@ },
            bad_bit: bad_bit_at(at),
        }),
{
    let bad_bit = match at {
        Some(span) => Some(SourceSpan::point(span.start)),
        None => None,
    };
    ConfigError::Parse { src: NamedSource::new(name, text), bad_bit }
}

/// Parses the specification document.
pub fn parse_spec(name: &str, text: &str) -> (parsed: Result<AppSpec, ConfigError>)
    ensures
        match loaded_spec(text@) {
            Ok(spec) => parsed matches Ok(s) && s.deep_view() == spec,
            Err(bad_bit) => parsed matches Err(e) && e.deep_view() == (ConfigErrorView::Parse {
                src: Source { name: name@, text: text@ },
                bad_bit,
            }),
        },
{
    let tree = match parse_toml(name, text) {
        Ok(tree) => tree,
        Err(e) => {
            return Err(e);
        },
    };
    match decode_spec(&tree) {
        Ok(spec) => Ok(spec),
        Err(at) => Err(parse_failure(name, text, at)),
    }
}

/// Parses the configuration document and brings it into normal form.
pub fn parse_config(name: &str, text: &str) -> (parsed: Result<AppConfig, ConfigError>)
    ensures
        match loaded_config(text@) {
            Ok(config) => parsed matches Ok(c) && c.deep_view() == config,
            Err(bad_bit) => parsed matches Err(e) && e.deep_view() == (ConfigErrorView::Parse {
                src: Source { name: name@, text: text@ },
                bad_bit,
            }),
        },
{
    let tree = match parse_toml(name, text) {
        Ok(tree) => tree,
        Err(e) => {
            return Err(e);
        },
    };
    match decode_config(&tree) {
        Ok(config) => Ok(normalize(config)),
        Err(at) => Err(parse_failure(name, text, at)),
    }
}

/// What loading a pair of documents yields: both models where both texts
/// parse and every check passes, else the one error. The specification is
/// parsed first.
pub open spec fn load_outcome(spec_src: Source, config_src: Source) -> Result<
    (AppSpecView, AppConfigView),
    ConfigErrorView,
> {
    match loaded_spec(spec_src.text) {
        Err(bad_bit) => Err(ConfigErrorView::Parse { src: spec_src, bad_bit }),
        Ok(spec) => match loaded_config(config_src.text) {
            Err(bad_bit) => Err(ConfigErrorView::Parse { src: config_src, bad_bit }),
            Ok(config) => match validation_outcome(spec_src, spec, config_src, config) {
                Some(error) => Err(error),
                None => Ok((spec, config)),
            },
        },
    }
}

/// Loads a specification and a configuration from their texts and checks
/// the one against the other. Each document is given as its name and its
/// text. A configuration that is handed out is in normal form, and an
/// error points inside the text of its document, so that it can be drawn.
pub fn load(spec_doc: (&str, &str), config_doc: (&str, &str)) -> (loaded: Result<
    (AppSpec, AppConfig),
    ConfigError,
>)
    ensures
        match load_outcome(
            Source { name: spec_doc.0@, text: spec_doc.1@ },
            Source { name: config_doc.0@, text: config_doc.1@ },
        ) {
            Ok((spec, config)) => loaded matches Ok((s, c)) && s.deep_view() == spec && c.deep_view()
                == config,
            Err(error) => loaded matches Err(e) && e.deep_view() == error,
        },
        loaded matches Ok((_, c)) ==> c.deep_view().is_normalized(),
        loaded matches Err(e) ==> diagnostic_of(e.deep_view()).well_placed(),
{
    proof {
        let spec_src = Source { name: spec_doc.0@, text: spec_doc.1@ };
        let config_src = Source { name: config_doc.0@, text: config_doc.1@ };
        if load_outcome(spec_src, config_src) is Err {
            loaded_errors_can_be_drawn(spec_src, config_src);
        }
        if let Ok(tree) = parsed_tree(config_doc.1@) {
            if let Ok(config) = decoded_config(tree) {
                crate::config::normalization_is_idempotent(config);
            }
        }
    }
    let (spec_name, spec) = spec_doc;
    let (config_name, config) = config_doc;
    let parsed_spec = match parse_spec(spec_name, spec) {
        Ok(s) => s,
        Err(e) => {
            return Err(e);
        },
    };
    let parsed_config = match parse_config(config_name, config) {
        Ok(c) => c,
        Err(e) => {
            return Err(e);
        },
    };
    match validate((spec_name, spec, &parsed_spec), (config_name, config, &parsed_config)) {
        Ok(()) => {},
        Err(e) => {
            return Err(e);
        },
    }
    Ok((parsed_spec, parsed_config))
}

} // verus!
