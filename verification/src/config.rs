//! The specification and configuration documents as typed values.

use std::borrow::Cow;
use crate::keyed::{Binding, SpannedMap};
use crate::span::{Located, LocatedView};
use vstd::prelude::*;

verus! {

/// One declared expectation of the specification: a key, an optional
/// pattern for its value, and whether the key may be left out.
#[derive(Debug)]
pub struct EnvSpec {
    pub key: String,
    pub regex: Option<String>,
    pub optional: bool,
}

/// What an `EnvSpec` says, over plain sequences of characters.
pub struct EnvSpecView {
    pub key: Seq<char>,
    pub regex: Option<Seq<char>>,
    pub optional: bool,
}

impl DeepView for EnvSpec {
    type V = EnvSpecView;

    open spec fn deep_view(&self) -> EnvSpecView {
        EnvSpecView {
            key: self.key@,
            regex: match self.regex {
                Some(r) => Some(r@),
                None => None,
            },
            optional: self.optional,
        }
    }
}

impl Clone for EnvSpec {
    fn clone(&self) -> (copy: EnvSpec)
        ensures
            copy == *self,
    {
        EnvSpec {
            key: self.key.clone(),
            regex: match &self.regex {
                Some(r) => Some(r.clone()),
                None => None,
            },
            optional: self.optional,
        }
    }
}

/// An entry of a requirement list: either the full record or just the key.
#[derive(Debug)]
pub enum EnvSpecOrPlain {
    Spec(EnvSpec),
    Plain(String),
}

/// An entry of a requirement list over plain sequences of characters.
pub enum EnvSpecOrPlainView {
    Spec(EnvSpecView),
    Plain(Seq<char>),
}

impl DeepView for EnvSpecOrPlain {
    type V = EnvSpecOrPlainView;

    open spec fn deep_view(&self) -> EnvSpecOrPlainView {
        match self {
            EnvSpecOrPlain::Spec(spec) => EnvSpecOrPlainView::Spec(spec.deep_view()),
            EnvSpecOrPlain::Plain(name) => EnvSpecOrPlainView::Plain(name@),
        }
    }
}

impl EnvSpecOrPlainView {
    /// The requirement that the entry stands for. A bare key asks for that
    /// key, with no pattern, and does not allow it to be left out.
    pub open spec fn requirement(self) -> EnvSpecView {
        match self {
            EnvSpecOrPlainView::Spec(spec) => spec,
            EnvSpecOrPlainView::Plain(name) => EnvSpecView { key: name, regex: None, optional: false },
        }
    }
}

impl EnvSpecOrPlain {
    /// The entry in its canonical form: the record itself where there is
    /// one, else a record made from the bare key.
    pub fn to_env_spec<'a>(&'a self) -> (spec: Cow<'a, EnvSpec>)
        ensures
            spec.deep_view() == self.deep_view().requirement(),
            self matches EnvSpecOrPlain::Spec(s) ==> spec == Cow::<'a, EnvSpec>::Borrowed(&s),
            self is Plain ==> spec is Owned,
    {
        match self {
            EnvSpecOrPlain::Spec(spec) => Cow::Borrowed(spec),
            EnvSpecOrPlain::Plain(name) => Cow::Owned(
                EnvSpec { key: name.clone(), regex: None, optional: false },
            ),
        }
    }
}

/// How to reach a MySQL database.
#[derive(Debug)]
pub struct MysqlMetadata {
    pub url: String,
    pub root_certificate: Option<String>,
}

/// A MySQL binding over plain sequences of characters.
pub struct MysqlMetadataView {
    pub url: Seq<char>,
    pub root_certificate: Option<Seq<char>>,
}

impl DeepView for MysqlMetadata {
    type V = MysqlMetadataView;

    open spec fn deep_view(&self) -> MysqlMetadataView {
        MysqlMetadataView { url: self.url@, root_certificate: self.root_certificate.deep_view() }
    }
}

impl Clone for MysqlMetadata {
    fn clone(&self) -> (copy: MysqlMetadata)
        ensures
            copy == *self,
    {
        MysqlMetadata {
            url: self.url.clone(),
            root_certificate: match &self.root_certificate {
                Some(c) => Some(c.clone()),
                None => None,
            },
        }
    }
}

/// A publish/subscribe binding in its structured form.
#[derive(Debug)]
pub struct PubsubMetadata {
    pub namespace: String,
}

/// A publish/subscribe binding over plain sequences of characters.
pub struct PubsubMetadataView {
    pub namespace: Seq<char>,
}

impl DeepView for PubsubMetadata {
    type V = PubsubMetadataView;

    open spec fn deep_view(&self) -> PubsubMetadataView {
        PubsubMetadataView { namespace: self.namespace@ }
    }
}

impl Clone for PubsubMetadata {
    fn clone(&self) -> (copy: PubsubMetadata)
        ensures
            copy == *self,
    {
        PubsubMetadata { namespace: self.namespace.clone() }
    }
}

/// A publish/subscribe binding as written: the structured form, or just
/// the name of the namespace.
#[derive(Debug)]
pub enum PubsubMetadataOrPlain {
    Metadata(PubsubMetadata),
    Plain(String),
}

/// A publish/subscribe binding as written, over plain sequences of
/// characters.
pub enum PubsubMetadataOrPlainView {
    Metadata(PubsubMetadataView),
    Plain(Seq<char>),
}

impl DeepView for PubsubMetadataOrPlain {
    type V = PubsubMetadataOrPlainView;

    open spec fn deep_view(&self) -> PubsubMetadataOrPlainView {
        match self {
            PubsubMetadataOrPlain::Metadata(m) => PubsubMetadataOrPlainView::Metadata(m.deep_view()),
            PubsubMetadataOrPlain::Plain(name) => PubsubMetadataOrPlainView::Plain(name@),
        }
    }
}

impl PubsubMetadataOrPlainView {
    /// The structured form of the binding: a bare name is the namespace.
    pub open spec fn metadata(self) -> PubsubMetadataView {
        match self {
            PubsubMetadataOrPlainView::Metadata(m) => m,
            PubsubMetadataOrPlainView::Plain(name) => PubsubMetadataView { namespace: name },
        }
    }

    /// The binding rewritten into its structured form.
    pub open spec fn canonical(self) -> PubsubMetadataOrPlainView {
        PubsubMetadataOrPlainView::Metadata(self.metadata())
    }
}

impl PubsubMetadataOrPlain {
    /// The structured form of the binding.
    pub fn to_metadata(&self) -> (metadata: PubsubMetadata)
        ensures
            metadata.deep_view() == self.deep_view().metadata(),
    {
        match self {
            PubsubMetadataOrPlain::Metadata(m) => m.clone(),
            PubsubMetadataOrPlain::Plain(name) => PubsubMetadata { namespace: name.clone() },
        }
    }

    /// Reads a binding that is known to be structured. A binding still in
    /// its short form has no structured data to hand out: normalize first.
    pub fn unwrap_as_metadata(&self) -> (metadata: &PubsubMetadata)
        requires
            self is Metadata,
        ensures
            *self == PubsubMetadataOrPlain::Metadata(*metadata),
    {
        match self {
            PubsubMetadataOrPlain::Metadata(m) => m,
            PubsubMetadataOrPlain::Plain(_) => {
                proof {
                    assert(false);
                }
                unreached()
            },
        }
    }
}

/// The specification document: what the application expects to be given,
/// and how it is built.
#[derive(Debug)]
pub struct AppSpec {
    pub env: Vec<Located<EnvSpecOrPlain>>,
    pub secrets: Vec<Located<EnvSpecOrPlain>>,
    pub mysql: Vec<Located<String>>,
    pub build: Option<String>,
    pub _static: Option<String>,
    pub artifact: String,
}

/// The specification document over plain sequences.
pub struct AppSpecView {
    pub env: Seq<LocatedView<EnvSpecOrPlainView>>,
    pub secrets: Seq<LocatedView<EnvSpecOrPlainView>>,
    pub mysql: Seq<LocatedView<Seq<char>>>,
    pub build: Option<Seq<char>>,
    pub static_dir: Option<Seq<char>>,
    pub artifact: Seq<char>,
}

impl DeepView for AppSpec {
    type V = AppSpecView;

    open spec fn deep_view(&self) -> AppSpecView {
        AppSpecView {
            env: self.env.deep_view(),
            secrets: self.secrets.deep_view(),
            mysql: self.mysql.deep_view(),
            build: self.build.deep_view(),
            static_dir: self._static.deep_view(),
            artifact: self.artifact@,
        }
    }
}

/// The configuration document: the values an operator supplies.
#[derive(Debug)]
pub struct AppConfig {
    pub id: String,
    pub env: SpannedMap<String>,
    pub secrets: SpannedMap<String>,
    pub mysql: SpannedMap<MysqlMetadata>,
    pub pubsub: SpannedMap<PubsubMetadataOrPlain>,
    pub detached_secrets: bool,
}

/// The configuration document over plain sequences.
pub struct AppConfigView {
    pub id: Seq<char>,
    pub env: Seq<Binding<Seq<char>>>,
    pub secrets: Seq<Binding<Seq<char>>>,
    pub mysql: Seq<Binding<MysqlMetadataView>>,
    pub pubsub: Seq<Binding<PubsubMetadataOrPlainView>>,
    pub detached_secrets: bool,
}

impl DeepView for AppConfig {
    type V = AppConfigView;

    open spec fn deep_view(&self) -> AppConfigView {
        AppConfigView {
            id: self.id@,
            env: self.env.deep_view(),
            secrets: self.secrets.deep_view(),
            mysql: self.mysql.deep_view(),
            pubsub: self.pubsub.deep_view(),
            detached_secrets: self.detached_secrets,
        }
    }
}

impl AppConfig {
    /// Checks that every publish/subscribe binding is in its structured
    /// form.
    pub fn is_normalized(&self) -> (ok: bool)
        ensures
            ok == self.deep_view().is_normalized(),
    {
        let n = self.pubsub.len();
        let mut i: usize = 0;
        while i < n
            invariant
                i <= n,
                n == self.deep_view().pubsub.len(),
                forall|k: int| 0 <= k < i ==> (#[trigger] self.deep_view().pubsub[k]).value is Metadata,
            decreases n - i,
        {
            if let Some((_, _, value)) = self.pubsub.get_index(i) {
                if let PubsubMetadataOrPlain::Plain(_) = value {
                    assert(self.deep_view().pubsub[i as int].value is Plain);
                    return false;
                }
            }
            i = i + 1;
        }
        true
    }
}

/// The bindings with every short form rewritten into its structured form.
pub open spec fn normalized_pubsub(bindings: Seq<Binding<PubsubMetadataOrPlainView>>) -> Seq<
    Binding<PubsubMetadataOrPlainView>,
> {
    Seq::new(
        bindings.len(),
        |i: int|
            Binding { key: bindings[i].key, span: bindings[i].span, value: bindings[i].value.canonical() },
    )
}

impl AppSpecView {
    /// Whether every requirement stands inside a text of `len` bytes.
    pub open spec fn placed(self, len: nat) -> bool {
        &&& forall|i: int| 0 <= i < self.env.len() ==> (#[trigger] self.env[i]).span.fits(len)
        &&& forall|i: int| 0 <= i < self.secrets.len() ==> (#[trigger] self.secrets[i]).span.fits(len)
    }
}

impl AppConfigView {
    /// Whether the key of every plain variable and of every secret stands
    /// inside a text of `len` bytes.
    pub open spec fn placed(self, len: nat) -> bool {
        crate::keyed::spans_fit(self.env, len) && crate::keyed::spans_fit(self.secrets, len)
    }

    /// The configuration with every publish/subscribe binding in its
    /// structured form and all else as it was.
    pub open spec fn normalized(self) -> AppConfigView {
        AppConfigView { pubsub: normalized_pubsub(self.pubsub), ..self }
    }

    /// Whether every publish/subscribe binding is in its structured form.
    pub open spec fn is_normalized(self) -> bool {
        forall|i: int| 0 <= i < self.pubsub.len() ==> (#[trigger] self.pubsub[i]).value is Metadata
    }
}

/// Bringing a configuration into normal form a second time changes
/// nothing, and in a normal form every publish/subscribe binding is
/// structured.
pub proof fn normalization_is_idempotent(config: AppConfigView)
    ensures
        config.normalized().normalized() == config.normalized(),
        config.normalized().is_normalized(),
{
    assert(normalized_pubsub(normalized_pubsub(config.pubsub)) =~= normalized_pubsub(config.pubsub));
}

/// A configuration in normal form is its own normal form.
pub proof fn normal_form_is_fixed(config: AppConfigView)
    requires
        config.is_normalized(),
    ensures
        config.normalized() == config,
{
    assert(normalized_pubsub(config.pubsub) =~= config.pubsub);
}

/// Rewrites every publish/subscribe binding given by its bare name into the
/// structured form and leaves the rest of the configuration untouched.
pub fn normalize(config: AppConfig) -> (normal: AppConfig)
    ensures
        normal.deep_view() == config.deep_view().normalized(),
        normal.deep_view().is_normalized(),
{
    let AppConfig { id, env, secrets, mysql, pubsub, detached_secrets } = config;
    let ghost before = pubsub.deep_view();
    let mut pubsub = pubsub;
    let n = pubsub.len();
    let mut i: usize = 0;
    while i < n
        invariant
            i <= n,
            n == before.len(),
            pubsub.deep_view().len() == n,
            forall|j: int| 0 <= j < i ==> (#[trigger] pubsub.deep_view()[j]) == normalized_pubsub(before)[j],
            forall|j: int| i <= j < n ==> (#[trigger] pubsub.deep_view()[j]) == before[j],
        decreases n - i,
    {
        let ghost current = pubsub.deep_view();
        let replacement = match pubsub.get_index(i) {
            Some((_, _, value)) => match value {
                PubsubMetadataOrPlain::Plain(_) => Some(value.to_metadata()),
                PubsubMetadataOrPlain::Metadata(_) => None,
            },
            None => None,
        };
        if let Some(metadata) = replacement {
            pubsub = pubsub.replace_value(i, PubsubMetadataOrPlain::Metadata(metadata));
        }
        assert(pubsub.deep_view()[i as int] == normalized_pubsub(before)[i as int]);
        assert forall|j: int| 0 <= j < i implies (#[trigger] pubsub.deep_view()[j]) == normalized_pubsub(
            before,
        )[j] by {
            assert(pubsub.deep_view()[j] == current[j]);
        }
        assert forall|j: int| i < j < n implies (#[trigger] pubsub.deep_view()[j]) == before[j] by {
            assert(pubsub.deep_view()[j] == current[j]);
        }
        i = i + 1;
    }
    let normal = AppConfig { id, env, secrets, mysql, pubsub, detached_secrets };
    assert(normal.deep_view().pubsub =~= normalized_pubsub(before));
    normal
}

} // verus!
