//! Reads the typed documents out of a parsed tree. A failure names the
//! node that has the wrong shape, where there is one.

use crate::config::{
    AppConfig, AppConfigView, AppSpec, AppSpecView, EnvSpec, EnvSpecOrPlain, EnvSpecOrPlainView, EnvSpecView,
    MysqlMetadata, MysqlMetadataView, PubsubMetadata, PubsubMetadataOrPlain, PubsubMetadataOrPlainView,
    PubsubMetadataView,
};
use crate::document::{Entry, Node, Value};
use crate::keyed::{bound, bound_all, lemma_bound_all_fits, spans_fit, Binding, SpannedMap};
use crate::span::{Located, LocatedView, SourceSpan};
use vstd::prelude::*;

verus! {

/// Where a tree departs from the expected shape: the range of the node at
/// fault, or nothing where the document as a whole lacks a key.
pub type Misplaced = Option<SourceSpan>;

/// Whether `i` is the first entry of the table with this key.
pub open spec fn first_with_key(entries: Seq<Entry>, key: Seq<char>, i: int) -> bool {
    &&& 0 <= i < entries.len()
    &&& entries[i].key@ == key
    &&& forall|k: int| 0 <= k < i ==> (#[trigger] entries[k]).key@ != key
}

/// The value under `key` in a table: that of the first entry with the key.
pub open spec fn field(entries: Seq<Entry>, key: Seq<char>) -> Option<Node> {
    if exists|i: int| first_with_key(entries, key, i) {
        Some(entries[choose|i: int| first_with_key(entries, key, i)].node)
    } else {
        None
    }
}

/// Finds the value under `key` in a table.
pub fn get_field<'a>(entries: &'a Vec<Entry>, key: &str) -> (found: Option<&'a Node>)
    ensures
        match found {
            Some(node) => field(entries@, key@) == Some(*node),
            None => field(entries@, key@) is None,
        },
{
    let wanted = key.to_owned();
    let mut i: usize = 0;
    while i < entries.len()
        invariant
            i <= entries.len(),
            wanted@ == key@,
            forall|k: int| 0 <= k < i ==> (#[trigger] entries@[k]).key@ != key@,
        decreases entries.len() - i,
    {
        if entries[i].key == wanted {
            proof {
                assert(first_with_key(entries@, key@, i as int));
                let c = choose|c: int| first_with_key(entries@, key@, c);
                assert(first_with_key(entries@, key@, c));
                if c < i {
                    assert(entries@[c].key@ != key@);
                } else if i < c {
                    assert(entries@[i as int].key@ != key@);
                }
            }
            return Some(&entries[i].node);
        }
        i = i + 1;
    }
    proof {
        if exists|c: int| first_with_key(entries@, key@, c) {
            let c = choose|c: int| first_with_key(entries@, key@, c);
            assert(entries@[c].key@ != key@);
        }
    }
    None
}

/// The text of a node that must be a string.
pub open spec fn text_of(node: Node) -> Result<Seq<char>, Misplaced> {
    match node.value {
        Value::String(s) => Ok(s@),
        _ => Err(Some(node.span)),
    }
}

/// The text under a key that may be left out.
pub open spec fn optional_text(entries: Seq<Entry>, key: Seq<char>) -> Result<Option<Seq<char>>, Misplaced> {
    match field(entries, key) {
        None => Ok(None),
        Some(node) => match text_of(node) {
            Ok(text) => Ok(Some(text)),
            Err(at) => Err(at),
        },
    }
}

/// The text under a key that must be there. The table at `holder` is at
/// fault where the key is missing.
pub open spec fn required_text(entries: Seq<Entry>, key: Seq<char>, holder: Misplaced) -> Result<
    Seq<char>,
    Misplaced,
> {
    match field(entries, key) {
        None => Err(holder),
        Some(node) => text_of(node),
    }
}

/// The flag under a key, which is off where the key is left out.
pub open spec fn optional_flag(entries: Seq<Entry>, key: Seq<char>) -> Result<bool, Misplaced> {
    match field(entries, key) {
        None => Ok(false),
        Some(node) => match node.value {
            Value::Boolean(b) => Ok(b),
            _ => Err(Some(node.span)),
        },
    }
}

fn read_text(node: &Node) -> (text: Result<String, Misplaced>)
    ensures
        match text {
            Ok(s) => text_of(*node) == Ok::<Seq<char>, Misplaced>(s@),
            Err(at) => text_of(*node) == Err::<Seq<char>, Misplaced>(at),
        },
{
    match &node.value {
        Value::String(s) => Ok(s.clone()),
        _ => Err(Some(node.span)),
    }
}

fn read_optional_text(entries: &Vec<Entry>, key: &str) -> (text: Result<Option<String>, Misplaced>)
    ensures
        match text {
            Ok(s) => optional_text(entries@, key@) == Ok::<Option<Seq<char>>, Misplaced>(s.deep_view()),
            Err(at) => optional_text(entries@, key@) == Err::<Option<Seq<char>>, Misplaced>(at),
        },
{
    match get_field(entries, key) {
        None => Ok(None),
        Some(node) => match read_text(node) {
            Ok(s) => Ok(Some(s)),
            Err(at) => Err(at),
        },
    }
}

fn read_required_text(entries: &Vec<Entry>, key: &str, holder: Misplaced) -> (text: Result<String, Misplaced>)
    ensures
        match text {
            Ok(s) => required_text(entries@, key@, holder) == Ok::<Seq<char>, Misplaced>(s@),
            Err(at) => required_text(entries@, key@, holder) == Err::<Seq<char>, Misplaced>(at),
        },
{
    match get_field(entries, key) {
        None => Err(holder),
        Some(node) => read_text(node),
    }
}

fn read_optional_flag(entries: &Vec<Entry>, key: &str) -> (flag: Result<bool, Misplaced>)
    ensures
        flag == optional_flag(entries@, key@),
{
    match get_field(entries, key) {
        None => Ok(false),
        Some(node) => match &node.value {
            Value::Boolean(b) => Ok(*b),
            _ => Err(Some(node.span)),
        },
    }
}

/// Whether `i` is the first position that holds a failure.
pub open spec fn first_failure<A>(results: Seq<Result<A, Misplaced>>, i: int) -> bool {
    &&& 0 <= i < results.len()
    &&& results[i] is Err
    &&& forall|k: int| 0 <= k < i ==> (#[trigger] results[k]) is Ok
}

/// All the values where every position holds one, else the first failure.
pub open spec fn collected<A>(results: Seq<Result<A, Misplaced>>) -> Result<Seq<A>, Misplaced> {
    if exists|i: int| first_failure(results, i) {
        Err(results[choose|i: int| first_failure(results, i)]->Err_0)
    } else {
        Ok(Seq::new(results.len(), |i: int| results[i]->Ok_0))
    }
}

/// The first failure is the one that `collected` reports.
pub proof fn lemma_collected_failure<A>(results: Seq<Result<A, Misplaced>>, i: int)
    requires
        first_failure(results, i),
    ensures
        collected(results) == Err::<Seq<A>, Misplaced>(results[i]->Err_0),
{
    let c = choose|c: int| first_failure(results, c);
    assert(first_failure(results, c));
    if c < i {
        assert(results[c] is Ok);
    } else if i < c {
        assert(results[i] is Ok);
    }
}

/// Where nothing fails, `collected` hands out every value.
pub proof fn lemma_collected_values<A>(results: Seq<Result<A, Misplaced>>, values: Seq<A>)
    requires
        values.len() == results.len(),
        forall|k: int| 0 <= k < results.len() ==> (#[trigger] results[k]) == Ok::<A, Misplaced>(values[k]),
    ensures
        collected(results) == Ok::<Seq<A>, Misplaced>(values),
{
    if exists|i: int| first_failure(results, i) {
        let c = choose|c: int| first_failure(results, c);
        assert(results[c] is Ok);
    }
    assert(Seq::new(results.len(), |i: int| results[i]->Ok_0) =~= values);
}

/// Whether a failure names a range inside a text of `len` bytes, or none.
pub open spec fn placed(at: Misplaced, len: nat) -> bool {
    at matches Some(span) ==> span.fits(len)
}

/// Whether every entry of a table lies inside a text of `len` bytes.
pub open spec fn entries_fit(entries: Seq<Entry>, len: nat) -> bool {
    forall|i: int| 0 <= i < entries.len() ==> (#[trigger] entries[i]).key_span.fits(len) && entries[i].node.fits(len)
}

/// A value that can be read out of a node of the tree.
pub trait Readable: DeepView + Sized {
    /// The value that a node holds, or the place where the node has the
    /// wrong shape.
    spec fn read(node: Node) -> Result<Self::V, Misplaced>;

    /// Reads the value that a node holds.
    fn decode(node: &Node) -> (value: Result<Self, Misplaced>)
        ensures
            match value {
                Ok(v) => Self::read(*node) == Ok::<Self::V, Misplaced>(v.deep_view()),
                Err(at) => Self::read(*node) == Err::<Self::V, Misplaced>(at),
            },
    ;

    /// A failure names a place inside the text that the node lies in.
    proof fn read_is_placed(node: Node, len: nat)
        requires
            node.fits(len),
        ensures
            Self::read(node) matches Err(at) ==> placed(at, len),
    ;
}

/// A string.
impl Readable for String {
    open spec fn read(node: Node) -> Result<Seq<char>, Misplaced> {
        text_of(node)
    }

    fn decode(node: &Node) -> (value: Result<String, Misplaced>) {
        read_text(node)
    }

    proof fn read_is_placed(node: Node, len: nat) {
    }
}

/// An entry of a requirement list: a string is a bare key, and a table is
/// the full record, in which `key` must be there and `regex` and `optional`
/// may be. Whatever is wrong inside the table, the table is at fault.
impl Readable for EnvSpecOrPlain {
    open spec fn read(node: Node) -> Result<EnvSpecOrPlainView, Misplaced> {
        match node.value {
            Value::String(name) => Ok(EnvSpecOrPlainView::Plain(name@)),
            Value::Table(entries) => match (
                required_text(entries@, "key"@, Some(node.span)),
                optional_text(entries@, "regex"@),
                optional_flag(entries@, "optional"@),
            ) {
                (Ok(key), Ok(regex), Ok(optional)) => Ok(
                    EnvSpecOrPlainView::Spec(EnvSpecView { key, regex, optional }),
                ),
                _ => Err(Some(node.span)),
            },
            _ => Err(Some(node.span)),
        }
    }

    fn decode(node: &Node) -> (value: Result<EnvSpecOrPlain, Misplaced>) {
        match &node.value {
            Value::String(name) => Ok(EnvSpecOrPlain::Plain(name.clone())),
            Value::Table(entries) => {
                let key = match read_required_text(entries, "key", Some(node.span)) {
                    Ok(key) => key,
                    Err(_) => {
                        return Err(Some(node.span));
                    },
                };
                let regex = match read_optional_text(entries, "regex") {
                    Ok(regex) => regex,
                    Err(_) => {
                        return Err(Some(node.span));
                    },
                };
                let optional = match read_optional_flag(entries, "optional") {
                    Ok(optional) => optional,
                    Err(_) => {
                        return Err(Some(node.span));
                    },
                };
                Ok(EnvSpecOrPlain::Spec(EnvSpec { key, regex, optional }))
            },
            _ => Err(Some(node.span)),
        }
    }

    proof fn read_is_placed(node: Node, len: nat) {
    }
}

/// A MySQL binding: a table in which `url` must be there and
/// `root_certificate` may be.
impl Readable for MysqlMetadata {
    open spec fn read(node: Node) -> Result<MysqlMetadataView, Misplaced> {
        match node.value {
            Value::Table(fields) => match required_text(fields@, "url"@, Some(node.span)) {
                Err(at) => Err(at),
                Ok(url) => match optional_text(fields@, "root_certificate"@) {
                    Err(at) => Err(at),
                    Ok(root_certificate) => Ok(MysqlMetadataView { url, root_certificate }),
                },
            },
            _ => Err(Some(node.span)),
        }
    }

    fn decode(node: &Node) -> (value: Result<MysqlMetadata, Misplaced>) {
        match &node.value {
            Value::Table(fields) => {
                let url = match read_required_text(fields, "url", Some(node.span)) {
                    Ok(url) => url,
                    Err(at) => {
                        return Err(at);
                    },
                };
                let root_certificate = match read_optional_text(fields, "root_certificate") {
                    Ok(c) => c,
                    Err(at) => {
                        return Err(at);
                    },
                };
                Ok(MysqlMetadata { url, root_certificate })
            },
            _ => Err(Some(node.span)),
        }
    }

    proof fn read_is_placed(node: Node, len: nat) {
        if let Value::Table(fields) = node.value {
            assert(entries_fit(fields@, len));
            lemma_texts_placed(fields@, "url"@, Some(node.span), len);
            lemma_texts_placed(fields@, "root_certificate"@, None, len);
        }
    }
}

/// A publish/subscribe binding: a string is the bare name, a table with
/// `namespace` is the structured form, and anything else is at fault.
impl Readable for PubsubMetadataOrPlain {
    open spec fn read(node: Node) -> Result<PubsubMetadataOrPlainView, Misplaced> {
        match node.value {
            Value::String(name) => Ok(PubsubMetadataOrPlainView::Plain(name@)),
            Value::Table(fields) => match required_text(fields@, "namespace"@, Some(node.span)) {
                Ok(namespace) => Ok(PubsubMetadataOrPlainView::Metadata(PubsubMetadataView { namespace })),
                Err(_) => Err(Some(node.span)),
            },
            _ => Err(Some(node.span)),
        }
    }

    fn decode(node: &Node) -> (value: Result<PubsubMetadataOrPlain, Misplaced>) {
        match &node.value {
            Value::String(name) => Ok(PubsubMetadataOrPlain::Plain(name.clone())),
            Value::Table(fields) => match read_required_text(fields, "namespace", Some(node.span)) {
                Ok(namespace) => Ok(PubsubMetadataOrPlain::Metadata(PubsubMetadata { namespace })),
                Err(_) => Err(Some(node.span)),
            },
            _ => Err(Some(node.span)),
        }
    }

    proof fn read_is_placed(node: Node, len: nat) {
    }
}

/// The value that a node holds with the place of the node.
pub open spec fn located<T: Readable>(node: Node) -> Result<LocatedView<T::V>, Misplaced> {
    match T::read(node) {
        Ok(value) => Ok(LocatedView { value, span: node.span }),
        Err(at) => Err(at),
    }
}

/// The list under a key that may be left out. What is there must be an
/// array, and the first item of the wrong shape is reported.
pub open spec fn list_of<T: Readable>(entries: Seq<Entry>, key: Seq<char>) -> Result<
    Seq<LocatedView<T::V>>,
    Misplaced,
> {
    match field(entries, key) {
        None => Ok(Seq::empty()),
        Some(node) => match node.value {
            Value::Array(items) => collected(Seq::new(items@.len(), |i: int| located::<T>(items@[i]))),
            _ => Err(Some(node.span)),
        },
    }
}

/// Reads the list under `key`.
pub fn decode_list<T: Readable>(entries: &Vec<Entry>, key: &str) -> (list: Result<Vec<Located<T>>, Misplaced>)
    ensures
        match list {
            Ok(l) => list_of::<T>(entries@, key@) == Ok::<Seq<LocatedView<T::V>>, Misplaced>(l.deep_view()),
            Err(at) => list_of::<T>(entries@, key@) == Err::<Seq<LocatedView<T::V>>, Misplaced>(at),
        },
{
    let mut list: Vec<Located<T>> = Vec::new();
    let node = match get_field(entries, key) {
        None => {
            assert(list.deep_view() =~= Seq::<LocatedView<T::V>>::empty());
            return Ok(list);
        },
        Some(node) => node,
    };
    let items = match &node.value {
        Value::Array(items) => items,
        _ => {
            return Err(Some(node.span));
        },
    };
    let ghost results = Seq::new(items@.len(), |i: int| located::<T>(items@[i]));
    let mut i: usize = 0;
    while i < items.len()
        invariant
            i <= items.len(),
            results == Seq::new(items@.len(), |i: int| located::<T>(items@[i])),
            field(entries@, key@) == Some(*node),
            node.value == Value::Array(*items),
            list.len() == i,
            forall|k: int| 0 <= k < i ==> (#[trigger] results[k]) == Ok::<LocatedView<T::V>, Misplaced>(
                list.deep_view()[k],
            ),
        decreases items.len() - i,
    {
        match T::decode(&items[i]) {
            Ok(value) => {
                let ghost before = list.deep_view();
                list.push(Located::new(items[i].span, value));
                assert forall|k: int| 0 <= k < i + 1 implies (#[trigger] results[k]) == Ok::<
                    LocatedView<T::V>,
                    Misplaced,
                >(list.deep_view()[k]) by {
                    if k < i {
                        assert(list.deep_view()[k] == before[k]);
                    }
                }
            },
            Err(at) => {
                proof {
                    assert(first_failure(results, i as int));
                    lemma_collected_failure(results, i as int);
                }
                return Err(at);
            },
        }
        i = i + 1;
    }
    proof {
        lemma_collected_values(results, list.deep_view());
    }
    Ok(list)
}

/// The binding that an entry of a table stands for: its key, the place of
/// the key, and the value it holds.
pub open spec fn binding_of<V: Readable>(entry: Entry) -> Result<Binding<V::V>, Misplaced> {
    match V::read(entry.node) {
        Ok(value) => Ok(Binding { key: entry.key@, span: entry.key_span, value }),
        Err(at) => Err(at),
    }
}

/// The mapping under a key that may be left out. What is there must be a
/// table; its entries are bound in their order, and the first entry of the
/// wrong shape is reported.
pub open spec fn table_of<V: Readable>(entries: Seq<Entry>, key: Seq<char>) -> Result<
    Seq<Binding<V::V>>,
    Misplaced,
> {
    match field(entries, key) {
        None => Ok(Seq::empty()),
        Some(node) => match node.value {
            Value::Table(rows) => match collected(Seq::new(rows@.len(), |i: int| binding_of::<V>(rows@[i]))) {
                Ok(raw) => Ok(bound_all(raw)),
                Err(at) => Err(at),
            },
            _ => Err(Some(node.span)),
        },
    }
}

/// Binding one more item after `items` binds it on top of what `items`
/// gave.
proof fn lemma_bound_all_push<V>(items: Seq<Binding<V>>, last: Binding<V>)
    ensures
        bound_all(items.push(last)) == bound(bound_all(items), last.key, last.span, last.value),
{
    assert(items.push(last).drop_last() =~= items);
}

/// Reads the mapping under `key`.
pub fn decode_table<V: Readable>(entries: &Vec<Entry>, key: &str) -> (table: Result<SpannedMap<V>, Misplaced>)
    ensures
        match table {
            Ok(t) => table_of::<V>(entries@, key@) == Ok::<Seq<Binding<V::V>>, Misplaced>(t.deep_view()),
            Err(at) => table_of::<V>(entries@, key@) == Err::<Seq<Binding<V::V>>, Misplaced>(at),
        },
{
    let mut table: SpannedMap<V> = SpannedMap::new();
    let node = match get_field(entries, key) {
        None => {
            return Ok(table);
        },
        Some(node) => node,
    };
    let rows = match &node.value {
        Value::Table(rows) => rows,
        _ => {
            return Err(Some(node.span));
        },
    };
    let ghost results = Seq::new(rows@.len(), |i: int| binding_of::<V>(rows@[i]));
    let ghost mut raw = Seq::<Binding<V::V>>::empty();
    let mut i: usize = 0;
    while i < rows.len()
        invariant
            i <= rows.len(),
            results == Seq::new(rows@.len(), |i: int| binding_of::<V>(rows@[i])),
            field(entries@, key@) == Some(*node),
            node.value == Value::Table(*rows),
            raw.len() == i,
            forall|k: int| 0 <= k < i ==> (#[trigger] results[k]) == Ok::<Binding<V::V>, Misplaced>(raw[k]),
            table.deep_view() == bound_all(raw),
        decreases rows.len() - i,
    {
        let row = &rows[i];
        match V::decode(&row.node) {
            Ok(value) => {
                let ghost item = Binding { key: row.key@, span: row.key_span, value: value.deep_view() };
                proof {
                    lemma_bound_all_push(raw, item);
                    raw = raw.push(item);
                }
                table = table.insert(row.key.clone(), row.key_span, value);
            },
            Err(at) => {
                proof {
                    assert(first_failure(results, i as int));
                    lemma_collected_failure(results, i as int);
                }
                return Err(at);
            },
        }
        i = i + 1;
    }
    proof {
        lemma_collected_values(results, raw);
    }
    Ok(table)
}

/// The specification that a tree holds. The root must be a table; `env`,
/// `secrets` and `mysql` are lists that may be left out, `build` and
/// `static` are strings that may be left out, and `artifact` is a string
/// that must be there. Other keys are passed over. The parts are read in
/// this order, and the first that has the wrong shape is reported.
pub open spec fn decoded_spec(root: Node) -> Result<AppSpecView, Misplaced> {
    match root.value {
        Value::Table(entries) => match list_of::<EnvSpecOrPlain>(entries@, "env"@) {
            Err(at) => Err(at),
            Ok(env) => match list_of::<EnvSpecOrPlain>(entries@, "secrets"@) {
                Err(at) => Err(at),
                Ok(secrets) => match list_of::<String>(entries@, "mysql"@) {
                    Err(at) => Err(at),
                    Ok(mysql) => match optional_text(entries@, "build"@) {
                        Err(at) => Err(at),
                        Ok(build) => match optional_text(entries@, "static"@) {
                            Err(at) => Err(at),
                            Ok(static_dir) => match required_text(entries@, "artifact"@, None) {
                                Err(at) => Err(at),
                                Ok(artifact) => Ok(
                                    AppSpecView { env, secrets, mysql, build, static_dir, artifact },
                                ),
                            },
                        },
                    },
                },
            },
        },
        _ => Err(Some(root.span)),
    }
}

/// Reads the specification out of a parsed document.
pub fn decode_spec(root: &Node) -> (spec: Result<AppSpec, Misplaced>)
    ensures
        match spec {
            Ok(s) => decoded_spec(*root) == Ok::<AppSpecView, Misplaced>(s.deep_view()),
            Err(at) => decoded_spec(*root) == Err::<AppSpecView, Misplaced>(at),
        },
{
    let entries = match &root.value {
        Value::Table(entries) => entries,
        _ => {
            return Err(Some(root.span));
        },
    };
    let env = match decode_list::<EnvSpecOrPlain>(entries, "env") {
        Ok(env) => env,
        Err(at) => {
            return Err(at);
        },
    };
    let secrets = match decode_list::<EnvSpecOrPlain>(entries, "secrets") {
        Ok(secrets) => secrets,
        Err(at) => {
            return Err(at);
        },
    };
    let mysql = match decode_list::<String>(entries, "mysql") {
        Ok(mysql) => mysql,
        Err(at) => {
            return Err(at);
        },
    };
    let build = match read_optional_text(entries, "build") {
        Ok(build) => build,
        Err(at) => {
            return Err(at);
        },
    };
    let _static = match read_optional_text(entries, "static") {
        Ok(s) => s,
        Err(at) => {
            return Err(at);
        },
    };
    let artifact = match read_required_text(entries, "artifact", None) {
        Ok(artifact) => artifact,
        Err(at) => {
            return Err(at);
        },
    };
    Ok(AppSpec { env, secrets, mysql, build, _static, artifact })
}

/// The configuration that a tree holds. The root must be a table; `id` is
/// a string that must be there, `env` and `secrets` are tables of strings,
/// `mysql` and `pubsub` are tables of bindings, and `detached_secrets` is a
/// flag; all but `id` may be left out. Other keys are passed over. The
/// parts are read in this order, and the first that has the wrong shape is
/// reported.
pub open spec fn decoded_config(root: Node) -> Result<AppConfigView, Misplaced> {
    match root.value {
        Value::Table(entries) => match required_text(entries@, "id"@, None) {
            Err(at) => Err(at),
            Ok(id) => match table_of::<String>(entries@, "env"@) {
                Err(at) => Err(at),
                Ok(env) => match table_of::<String>(entries@, "secrets"@) {
                    Err(at) => Err(at),
                    Ok(secrets) => match table_of::<MysqlMetadata>(entries@, "mysql"@) {
                        Err(at) => Err(at),
                        Ok(mysql) => match table_of::<PubsubMetadataOrPlain>(entries@, "pubsub"@) {
                            Err(at) => Err(at),
                            Ok(pubsub) => match optional_flag(entries@, "detached_secrets"@) {
                                Err(at) => Err(at),
                                Ok(detached_secrets) => Ok(
                                    AppConfigView { id, env, secrets, mysql, pubsub, detached_secrets },
                                ),
                            },
                        },
                    },
                },
            },
        },
        _ => Err(Some(root.span)),
    }
}

/// Reads the configuration out of a parsed document.
pub fn decode_config(root: &Node) -> (config: Result<AppConfig, Misplaced>)
    ensures
        match config {
            Ok(c) => decoded_config(*root) == Ok::<AppConfigView, Misplaced>(c.deep_view()),
            Err(at) => decoded_config(*root) == Err::<AppConfigView, Misplaced>(at),
        },
{
    let entries = match &root.value {
        Value::Table(entries) => entries,
        _ => {
            return Err(Some(root.span));
        },
    };
    let id = match read_required_text(entries, "id", None) {
        Ok(id) => id,
        Err(at) => {
            return Err(at);
        },
    };
    let env = match decode_table::<String>(entries, "env") {
        Ok(env) => env,
        Err(at) => {
            return Err(at);
        },
    };
    let secrets = match decode_table::<String>(entries, "secrets") {
        Ok(secrets) => secrets,
        Err(at) => {
            return Err(at);
        },
    };
    let mysql = match decode_table::<MysqlMetadata>(entries, "mysql") {
        Ok(mysql) => mysql,
        Err(at) => {
            return Err(at);
        },
    };
    let pubsub = match decode_table::<PubsubMetadataOrPlain>(entries, "pubsub") {
        Ok(pubsub) => pubsub,
        Err(at) => {
            return Err(at);
        },
    };
    let detached_secrets = match read_optional_flag(entries, "detached_secrets") {
        Ok(flag) => flag,
        Err(at) => {
            return Err(at);
        },
    };
    Ok(AppConfig { id, env, secrets, mysql, pubsub, detached_secrets })
}

proof fn lemma_field_fits(entries: Seq<Entry>, key: Seq<char>, len: nat)
    requires
        entries_fit(entries, len),
    ensures
        field(entries, key) matches Some(node) ==> node.fits(len) && node.span.fits(len),
{
    if exists|i: int| first_with_key(entries, key, i) {
        let i = choose|i: int| first_with_key(entries, key, i);
        assert(first_with_key(entries, key, i));
        assert(entries[i].node.fits(len));
    }
}

proof fn lemma_texts_placed(entries: Seq<Entry>, key: Seq<char>, holder: Misplaced, len: nat)
    requires
        entries_fit(entries, len),
        placed(holder, len),
    ensures
        optional_text(entries, key) matches Err(at) ==> placed(at, len),
        required_text(entries, key, holder) matches Err(at) ==> placed(at, len),
        optional_flag(entries, key) matches Err(at) ==> placed(at, len),
{
    lemma_field_fits(entries, key, len);
}

/// Where some position holds a failure, there is a first one that does.
pub proof fn lemma_some_failure<A>(results: Seq<Result<A, Misplaced>>, i: int)
    requires
        0 <= i < results.len(),
        results[i] is Err,
    ensures
        exists|j: int| first_failure(results, j) && j <= i,
    decreases i,
{
    if exists|k: int| 0 <= k < i && (#[trigger] results[k]) is Err {
        let k = choose|k: int| 0 <= k < i && (#[trigger] results[k]) is Err;
        lemma_some_failure(results, k);
    } else {
        assert(first_failure(results, i));
    }
}

proof fn lemma_list_placed<T: Readable>(entries: Seq<Entry>, key: Seq<char>, len: nat)
    requires
        entries_fit(entries, len),
    ensures
        match list_of::<T>(entries, key) {
            Ok(list) => forall|i: int| 0 <= i < list.len() ==> (#[trigger] list[i]).span.fits(len),
            Err(at) => placed(at, len),
        },
{
    lemma_field_fits(entries, key, len);
    if let Some(node) = field(entries, key) {
        if let Value::Array(items) = node.value {
            let results = Seq::new(items@.len(), |i: int| located::<T>(items@[i]));
            if exists|i: int| first_failure(results, i) {
                let i = choose|i: int| first_failure(results, i);
                assert(first_failure(results, i));
                assert(items@[i].fits(len));
                T::read_is_placed(items@[i], len);
            } else {
                let list = Seq::new(results.len(), |i: int| results[i]->Ok_0);
                assert forall|i: int| 0 <= i < list.len() implies (#[trigger] list[i]).span.fits(len) by {
                    assert(items@[i].fits(len));
                    if results[i] is Err {
                        lemma_some_failure(results, i);
                    }
                }
            }
        }
    }
}

proof fn lemma_table_placed<V: Readable>(entries: Seq<Entry>, key: Seq<char>, len: nat)
    requires
        entries_fit(entries, len),
    ensures
        match table_of::<V>(entries, key) {
            Ok(table) => spans_fit(table, len),
            Err(at) => placed(at, len),
        },
{
    lemma_field_fits(entries, key, len);
    if let Some(node) = field(entries, key) {
        if let Value::Table(rows) = node.value {
            let results = Seq::new(rows@.len(), |i: int| binding_of::<V>(rows@[i]));
            assert(entries_fit(rows@, len));
            if exists|i: int| first_failure(results, i) {
                let i = choose|i: int| first_failure(results, i);
                assert(first_failure(results, i));
                assert(rows@[i].node.fits(len));
                V::read_is_placed(rows@[i].node, len);
            } else {
                let raw = Seq::new(results.len(), |i: int| results[i]->Ok_0);
                assert forall|i: int| 0 <= i < raw.len() implies (#[trigger] raw[i]).span.fits(len) by {
                    assert(rows@[i].key_span.fits(len));
                    if results[i] is Err {
                        lemma_some_failure(results, i);
                    }
                }
                lemma_bound_all_fits(raw, len);
            }
        }
    }
}

/// A specification read out of a tree that lies inside a text stands
/// inside that text, and so does the place of a failure.
pub proof fn decoded_spec_is_placed(root: Node, len: nat)
    requires
        root.fits(len),
    ensures
        match decoded_spec(root) {
            Ok(spec) => spec.placed(len),
            Err(at) => placed(at, len),
        },
{
    if let Value::Table(entries) = root.value {
        assert(entries_fit(entries@, len));
        lemma_list_placed::<EnvSpecOrPlain>(entries@, "env"@, len);
        lemma_list_placed::<EnvSpecOrPlain>(entries@, "secrets"@, len);
        lemma_list_placed::<String>(entries@, "mysql"@, len);
        lemma_texts_placed(entries@, "build"@, None, len);
        lemma_texts_placed(entries@, "static"@, None, len);
        lemma_texts_placed(entries@, "artifact"@, None, len);
    }
}

/// A configuration read out of a tree that lies inside a text stands
/// inside that text, and so does the place of a failure.
pub proof fn decoded_config_is_placed(root: Node, len: nat)
    requires
        root.fits(len),
    ensures
        match decoded_config(root) {
            Ok(config) => config.placed(len),
            Err(at) => placed(at, len),
        },
{
    if let Value::Table(entries) = root.value {
        assert(entries_fit(entries@, len));
        lemma_texts_placed(entries@, "id"@, None, len);
        lemma_table_placed::<String>(entries@, "env"@, len);
        lemma_table_placed::<String>(entries@, "secrets"@, len);
        lemma_table_placed::<MysqlMetadata>(entries@, "mysql"@, len);
        lemma_table_placed::<PubsubMetadataOrPlain>(entries@, "pubsub"@, len);
        lemma_texts_placed(entries@, "detached_secrets"@, None, len);
    }
}

} // verus!
