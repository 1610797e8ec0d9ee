//! What a deployment hands to the service: the values of the
//! configuration without their places in the text.

use crate::config::{AppConfig, AppConfigView, MysqlMetadata, MysqlMetadataView, PubsubMetadata, PubsubMetadataView};
use crate::keyed::{keys_distinct, Binding, SpannedMap};
use vstd::prelude::*;

verus! {

/// Whether some pair has this key.
pub open spec fn has_key<A>(pairs: Seq<(Seq<char>, A)>, key: Seq<char>) -> bool {
    exists|i: int| 0 <= i < pairs.len() && (#[trigger] pairs[i]).0 == key
}

/// Whether `i` is the first pair with this key.
pub open spec fn first_at<A>(pairs: Seq<(Seq<char>, A)>, key: Seq<char>, i: int) -> bool {
    &&& 0 <= i < pairs.len()
    &&& pairs[i].0 == key
    &&& forall|k: int| 0 <= k < i ==> (#[trigger] pairs[k]).0 != key
}

/// The value that goes with `key`: that of the first pair with the key.
pub open spec fn value_of<A>(pairs: Seq<(Seq<char>, A)>, key: Seq<char>) -> Option<A> {
    if exists|i: int| first_at(pairs, key, i) {
        Some(pairs[choose|i: int| first_at(pairs, key, i)].1)
    } else {
        None
    }
}

/// The pairs after `key` is given `value`: the first pair that has the key
/// takes the value and keeps its place, else the new pair comes last.
pub open spec fn put<A>(pairs: Seq<(Seq<char>, A)>, key: Seq<char>, value: A) -> Seq<(Seq<char>, A)> {
    if exists|i: int| first_at(pairs, key, i) {
        pairs.update(choose|i: int| first_at(pairs, key, i), (key, value))
    } else {
        pairs.push((key, value))
    }
}

/// The pairs after each of `items` is put in turn on top of `base`.
pub open spec fn put_all<A>(base: Seq<(Seq<char>, A)>, items: Seq<(Seq<char>, A)>) -> Seq<(Seq<char>, A)>
    decreases items.len(),
{
    if items.len() == 0 {
        base
    } else {
        put(put_all(base, items.drop_last()), items.last().0, items.last().1)
    }
}

/// The position of the last pair with this key, where there is one: the
/// pair that decides when a list is read as a mapping.
pub open spec fn last_at<A>(pairs: Seq<(Seq<char>, A)>, key: Seq<char>) -> int {
    choose|l: int| is_last_at(pairs, key, l)
}

/// Whether no key occurs twice.
pub open spec fn distinct<A>(pairs: Seq<(Seq<char>, A)>) -> bool {
    forall|i: int, j: int| 0 <= i < j < pairs.len() ==> (#[trigger] pairs[i]).0 != (#[trigger] pairs[j]).0
}

/// Only one position is the first with a key.
pub proof fn lemma_first_at<A>(pairs: Seq<(Seq<char>, A)>, key: Seq<char>, i: int)
    requires
        first_at(pairs, key, i),
    ensures
        (choose|c: int| first_at(pairs, key, c)) == i,
        value_of(pairs, key) == Some(pairs[i].1),
{
    let c = choose|c: int| first_at(pairs, key, c);
    assert(first_at(pairs, key, c));
    if c < i {
        assert(pairs[c].0 != key);
    } else if i < c {
        assert(pairs[i].0 != key);
    }
}

/// A key that some pair has, has a first pair.
pub proof fn lemma_has_first<A>(pairs: Seq<(Seq<char>, A)>, key: Seq<char>, i: int)
    requires
        0 <= i < pairs.len(),
        pairs[i].0 == key,
    ensures
        exists|c: int| first_at(pairs, key, c) && c <= i,
    decreases i,
{
    if exists|k: int| 0 <= k < i && (#[trigger] pairs[k]).0 == key {
        let k = choose|k: int| 0 <= k < i && (#[trigger] pairs[k]).0 == key;
        lemma_has_first(pairs, key, k);
    } else {
        assert(first_at(pairs, key, i));
    }
}

/// After a put, the key has the new value and every other key has the
/// value it had; and keys that were distinct stay so.
pub proof fn lemma_put<A>(pairs: Seq<(Seq<char>, A)>, key: Seq<char>, value: A, other: Seq<char>)
    ensures
        value_of(put(pairs, key, value), other) == if other == key {
            Some(value)
        } else {
            value_of(pairs, other)
        },
        distinct(pairs) ==> distinct(put(pairs, key, value)),
{
    let after = put(pairs, key, value);
    if exists|i: int| first_at(pairs, key, i) {
        let p = choose|i: int| first_at(pairs, key, i);
        assert(first_at(pairs, key, p));
        assert forall|k: int| 0 <= k < after.len() implies (#[trigger] after[k]).0 == pairs[k].0 by {}
        if other == key {
            assert(first_at(after, key, p)) by {
                assert forall|k: int| 0 <= k < p implies (#[trigger] after[k]).0 != key by {
                    assert(pairs[k].0 != key);
                }
            }
            lemma_first_at(after, key, p);
        } else {
            if exists|i: int| first_at(pairs, other, i) {
                let q = choose|i: int| first_at(pairs, other, i);
                assert(first_at(pairs, other, q));
                assert(first_at(after, other, q)) by {
                    assert forall|k: int| 0 <= k < q implies (#[trigger] after[k]).0 != other by {
                        assert(pairs[k].0 != other);
                    }
                }
                lemma_first_at(after, other, q);
                lemma_first_at(pairs, other, q);
            } else {
                if exists|i: int| first_at(after, other, i) {
                    let q = choose|i: int| first_at(after, other, i);
                    assert(first_at(after, other, q));
                    assert(pairs[q].0 == other);
                    lemma_has_first(pairs, other, q);
                }
            }
        }
        if distinct(pairs) {
            assert forall|i: int, j: int| 0 <= i < j < after.len() implies (#[trigger] after[i]).0 != (
            #[trigger] after[j]).0 by {
                assert(pairs[i].0 != pairs[j].0);
            }
        }
    } else {
        let n = pairs.len() as int;
        assert forall|k: int| 0 <= k < n implies (#[trigger] pairs[k]).0 != key by {
            if pairs[k].0 == key {
                lemma_has_first(pairs, key, k);
            }
        }
        if other == key {
            assert(first_at(after, key, n)) by {
                assert forall|k: int| 0 <= k < n implies (#[trigger] after[k]).0 != key by {
                    assert(after[k] == pairs[k]);
                }
            }
            lemma_first_at(after, key, n);
        } else {
            if exists|i: int| first_at(pairs, other, i) {
                let q = choose|i: int| first_at(pairs, other, i);
                assert(first_at(pairs, other, q));
                assert(first_at(after, other, q)) by {
                    assert(after[q] == pairs[q]);
                    assert forall|k: int| 0 <= k < q implies (#[trigger] after[k]).0 != other by {
                        assert(after[k] == pairs[k]);
                    }
                }
                lemma_first_at(after, other, q);
                lemma_first_at(pairs, other, q);
            } else {
                if exists|i: int| first_at(after, other, i) {
                    let q = choose|i: int| first_at(after, other, i);
                    assert(first_at(after, other, q));
                    assert(q < n);
                    assert(after[q] == pairs[q]);
                    lemma_has_first(pairs, other, q);
                }
            }
        }
        if distinct(pairs) {
            assert forall|i: int, j: int| 0 <= i < j < after.len() implies (#[trigger] after[i]).0 != (
            #[trigger] after[j]).0 by {
                if j < n {
                    assert(after[i] == pairs[i]);
                    assert(after[j] == pairs[j]);
                } else {
                    assert(after[i] == pairs[i]);
                }
            }
        }
    }
}

/// Gives `key` the value `value` in a list of pairs.
pub fn put_entry<V: DeepView>(pairs: &mut Vec<(String, V)>, key: String, value: V)
    ensures
        final(pairs).deep_view() == put(old(pairs).deep_view(), key@, value.deep_view()),
{
    let ghost before = pairs.deep_view();
    let mut i: usize = 0;
    while i < pairs.len()
        invariant
            i <= pairs.len(),
            pairs.deep_view() == before,
            before == old(pairs).deep_view(),
            forall|k: int| 0 <= k < i ==> (#[trigger] before[k]).0 != key@,
        decreases pairs.len() - i,
    {
        assert(pairs[i as int].deep_view() == before[i as int]);
        if pairs[i].0 == key {
            proof {
                assert(first_at(before, key@, i as int));
                lemma_first_at(before, key@, i as int);
            }
            pairs.set(i, (key, value));
            assert(pairs.deep_view() =~= before.update(i as int, (key@, value.deep_view())));
            return ;
        }
        i = i + 1;
    }
    proof {
        if exists|c: int| first_at(before, key@, c) {
            let c = choose|c: int| first_at(before, key@, c);
            assert(before[c].0 != key@);
        }
    }
    pairs.push((key, value));
    assert(pairs.deep_view() =~= before.push((key@, value.deep_view())));
}

/// The keys and values of a mapping, in its order.
pub open spec fn pairs_of<A>(bindings: Seq<Binding<A>>) -> Seq<(Seq<char>, A)> {
    Seq::new(bindings.len(), |i: int| (bindings[i].key, bindings[i].value))
}

/// The keys and structured values of the publish/subscribe bindings.
pub open spec fn pubsub_pairs(bindings: Seq<Binding<crate::config::PubsubMetadataOrPlainView>>) -> Seq<
    (Seq<char>, PubsubMetadataView),
> {
    Seq::new(bindings.len(), |i: int| (bindings[i].key, bindings[i].value.metadata()))
}

/// The values that a deployment runs with. Each list holds a key once.
#[derive(Debug)]
pub struct AppMetadata {
    pub env: Vec<(String, String)>,
    pub secrets: Vec<(String, String)>,
    pub mysql: Vec<(String, MysqlMetadata)>,
    pub pubsub: Vec<(String, PubsubMetadata)>,
}

/// `AppMetadata` over plain sequences.
pub struct AppMetadataView {
    pub env: Seq<(Seq<char>, Seq<char>)>,
    pub secrets: Seq<(Seq<char>, Seq<char>)>,
    pub mysql: Seq<(Seq<char>, MysqlMetadataView)>,
    pub pubsub: Seq<(Seq<char>, PubsubMetadataView)>,
}

impl DeepView for AppMetadata {
    type V = AppMetadataView;

    open spec fn deep_view(&self) -> AppMetadataView {
        AppMetadataView {
            env: self.env.deep_view(),
            secrets: self.secrets.deep_view(),
            mysql: self.mysql.deep_view(),
            pubsub: self.pubsub.deep_view(),
        }
    }
}

impl AppMetadataView {
    /// Whether no list holds a key twice.
    pub open spec fn wf(self) -> bool {
        distinct(self.env) && distinct(self.secrets) && distinct(self.mysql) && distinct(self.pubsub)
    }
}

/// A value of which a copy can be made that holds the same.
pub trait Duplicate: DeepView + Sized {
    /// A copy of the value.
    fn duplicate(&self) -> (copy: Self)
        ensures
            copy.deep_view() == self.deep_view(),
    ;
}

impl Duplicate for String {
    fn duplicate(&self) -> (copy: String) {
        self.clone()
    }
}

impl Duplicate for MysqlMetadata {
    fn duplicate(&self) -> (copy: MysqlMetadata) {
        self.clone()
    }
}

impl Duplicate for PubsubMetadata {
    fn duplicate(&self) -> (copy: PubsubMetadata) {
        self.clone()
    }
}

fn pairs_from<V: Duplicate>(bindings: &SpannedMap<V>) -> (pairs: Vec<(String, V)>)
    ensures
        pairs.deep_view() == pairs_of(bindings.deep_view()),
        distinct(pairs.deep_view()),
{
    let n = bindings.len();
    let ghost goal = pairs_of(bindings.deep_view());
    let mut pairs: Vec<(String, V)> = Vec::new();
    let mut i: usize = 0;
    while i < n
        invariant
            i <= n,
            n == bindings.deep_view().len(),
            goal == pairs_of(bindings.deep_view()),
            keys_distinct(bindings.deep_view()),
            pairs.deep_view() =~= goal.subrange(0, i as int),
        decreases n - i,
    {
        if let Some((key, _, value)) = bindings.get_index(i) {
            let ghost before = pairs.deep_view();
            pairs.push((key.clone(), value.duplicate()));
            assert(pairs.deep_view() =~= before.push(goal[i as int]));
        }
        i = i + 1;
    }
    assert(goal.subrange(0, n as int) =~= goal);
    assert(distinct(goal)) by {
        assert forall|a: int, b: int| 0 <= a < b < goal.len() implies (#[trigger] goal[a]).0 != (
        #[trigger] goal[b]).0 by {
            assert(bindings.deep_view()[a].key != bindings.deep_view()[b].key);
        }
    }
    pairs
}

fn structured_pairs(bindings: &SpannedMap<crate::config::PubsubMetadataOrPlain>) -> (pairs: Vec<
    (String, PubsubMetadata),
>)
    requires
        forall|i: int| 0 <= i < bindings.deep_view().len() ==> (#[trigger] bindings.deep_view()[i]).value is Metadata,
    ensures
        pairs.deep_view() == pubsub_pairs(bindings.deep_view()),
        distinct(pairs.deep_view()),
{
    let n = bindings.len();
    let ghost goal = pubsub_pairs(bindings.deep_view());
    let mut pairs: Vec<(String, PubsubMetadata)> = Vec::new();
    let mut i: usize = 0;
    while i < n
        invariant
            i <= n,
            n == bindings.deep_view().len(),
            goal == pubsub_pairs(bindings.deep_view()),
            keys_distinct(bindings.deep_view()),
            forall|i: int|
                0 <= i < bindings.deep_view().len() ==> (#[trigger] bindings.deep_view()[i]).value is Metadata,
            pairs.deep_view() =~= goal.subrange(0, i as int),
        decreases n - i,
    {
        if let Some((key, _, value)) = bindings.get_index(i) {
            assert(bindings.deep_view()[i as int].value is Metadata);
            let ghost before = pairs.deep_view();
            pairs.push((key.clone(), value.unwrap_as_metadata().clone()));
            assert(pairs.deep_view() =~= before.push(goal[i as int]));
        }
        i = i + 1;
    }
    assert(goal.subrange(0, n as int) =~= goal);
    assert(distinct(goal)) by {
        assert forall|a: int, b: int| 0 <= a < b < goal.len() implies (#[trigger] goal[a]).0 != (
        #[trigger] goal[b]).0 by {
            assert(bindings.deep_view()[a].key != bindings.deep_view()[b].key);
        }
    }
    pairs
}

impl AppMetadata {
    /// What `from_config` makes of a configuration: every mapping as its
    /// keys and values, in the order of the document.
    pub open spec fn of_config(config: AppConfigView) -> AppMetadataView {
        AppMetadataView {
            env: pairs_of(config.env),
            secrets: pairs_of(config.secrets),
            mysql: pairs_of(config.mysql),
            pubsub: pubsub_pairs(config.pubsub),
        }
    }

    /// The values of a configuration without their places. The
    /// configuration must be in normal form: a publish/subscribe binding
    /// still given by its bare name has no structured data to copy.
    pub fn from_config(config: &AppConfig) -> (md: AppMetadata)
        requires
            config.deep_view().is_normalized(),
        ensures
            md.deep_view() == Self::of_config(config.deep_view()),
            md.deep_view().wf(),
    {
        AppMetadata {
            env: pairs_from(&config.env),
            secrets: pairs_from(&config.secrets),
            mysql: pairs_from(&config.mysql),
            pubsub: structured_pairs(&config.pubsub),
        }
    }
}

/// What a package carries along: the values a deployment runs with, the
/// secrets among the plain variables.
#[derive(Debug)]
pub struct PackedAppMetadata {
    pub version: String,
    pub package: String,
    pub env: Vec<(String, String)>,
    pub mysql: Vec<(String, MysqlMetadata)>,
    pub pubsub: Vec<(String, PubsubMetadata)>,
}

/// `PackedAppMetadata` over plain sequences.
pub struct PackedAppMetadataView {
    pub version: Seq<char>,
    pub package: Seq<char>,
    pub env: Seq<(Seq<char>, Seq<char>)>,
    pub mysql: Seq<(Seq<char>, MysqlMetadataView)>,
    pub pubsub: Seq<(Seq<char>, PubsubMetadataView)>,
}

impl DeepView for PackedAppMetadata {
    type V = PackedAppMetadataView;

    open spec fn deep_view(&self) -> PackedAppMetadataView {
        PackedAppMetadataView {
            version: self.version@,
            package: self.package@,
            env: self.env.deep_view(),
            mysql: self.mysql.deep_view(),
            pubsub: self.pubsub.deep_view(),
        }
    }
}

fn put_entries<V: Duplicate>(pairs: &mut Vec<(String, V)>, items: &Vec<(String, V)>)
    ensures
        final(pairs).deep_view() == put_all(old(pairs).deep_view(), items.deep_view()),
{
    let ghost base = pairs.deep_view();
    let ghost all = items.deep_view();
    let mut i: usize = 0;
    while i < items.len()
        invariant
            i <= items.len(),
            all == items.deep_view(),
            all.len() == items.len(),
            pairs.deep_view() == put_all(base, all.subrange(0, i as int)),
        decreases items.len() - i,
    {
        assert(items[i as int].deep_view() == all[i as int]);
        assert(all.subrange(0, i as int + 1).drop_last() =~= all.subrange(0, i as int));
        put_entry(pairs, items[i].0.clone(), items[i].1.duplicate());
        i = i + 1;
    }
    assert(all.subrange(0, i as int) =~= all);
}

fn copy_pairs<V: Duplicate>(items: &Vec<(String, V)>) -> (copy: Vec<(String, V)>)
    ensures
        copy.deep_view() == items.deep_view(),
{
    let mut copy: Vec<(String, V)> = Vec::new();
    let mut i: usize = 0;
    while i < items.len()
        invariant
            i <= items.len(),
            copy.deep_view() =~= items.deep_view().subrange(0, i as int),
        decreases items.len() - i,
    {
        let ghost before = copy.deep_view();
        copy.push((items[i].0.clone(), items[i].1.duplicate()));
        assert(copy.deep_view() =~= before.push(items.deep_view()[i as int]));
        i = i + 1;
    }
    assert(items.deep_view().subrange(0, i as int) =~= items.deep_view());
    copy
}

impl PackedAppMetadata {
    /// What `new` packs: the version is `app`, the package is the file
    /// name, and the variables are the plain ones with the secrets put on
    /// top, so that a secret takes the place of a plain variable of the
    /// same name. The bindings are carried over as they are.
    pub open spec fn packed(md: AppMetadataView, package_filename: Seq<char>) -> PackedAppMetadataView {
        PackedAppMetadataView {
            version: "app"@,
            package: package_filename,
            env: put_all(put_all(Seq::empty(), md.env), md.secrets),
            mysql: md.mysql,
            pubsub: md.pubsub,
        }
    }

    /// Packs the metadata of a deployment for the package in the file
    /// `package_filename`.
    pub fn new(md: &AppMetadata, package_filename: &str) -> (out: PackedAppMetadata)
        ensures
            out.deep_view() == Self::packed(md.deep_view(), package_filename@),
    {
        let mut env: Vec<(String, String)> = Vec::new();
        assert(env.deep_view() =~= Seq::<(Seq<char>, Seq<char>)>::empty());
        put_entries(&mut env, &md.env);
        put_entries(&mut env, &md.secrets);
        PackedAppMetadata {
            version: "app".to_owned(),
            package: package_filename.to_owned(),
            env,
            mysql: copy_pairs(&md.mysql),
            pubsub: copy_pairs(&md.pubsub),
        }
    }
}

/// Whether `l` is the position of the last pair with this key.
pub open spec fn is_last_at<A>(pairs: Seq<(Seq<char>, A)>, key: Seq<char>, l: int) -> bool {
    0 <= l < pairs.len() && pairs[l].0 == key && forall|k: int|
        l < k < pairs.len() ==> (#[trigger] pairs[k]).0 != key
}

/// Only one position is the last with a key.
pub proof fn lemma_last_unique<A>(pairs: Seq<(Seq<char>, A)>, key: Seq<char>, l: int)
    requires
        is_last_at(pairs, key, l),
    ensures
        last_at(pairs, key) == l,
        has_key(pairs, key),
{
    let c = last_at(pairs, key);
    assert(is_last_at(pairs, key, c));
    if c < l {
        assert(pairs[l].0 != key);
    } else if l < c {
        assert(pairs[c].0 != key);
    }
}

/// A key that some pair has, has a last pair.
pub proof fn lemma_has_last<A>(pairs: Seq<(Seq<char>, A)>, key: Seq<char>)
    requires
        has_key(pairs, key),
    ensures
        is_last_at(pairs, key, last_at(pairs, key)),
    decreases pairs.len(),
{
    let w = choose|w: int| 0 <= w < pairs.len() && (#[trigger] pairs[w]).0 == key;
    let n = pairs.len() as int;
    if pairs[n - 1].0 == key {
        assert(is_last_at(pairs, key, n - 1));
        lemma_last_unique(pairs, key, n - 1);
    } else {
        let front = pairs.drop_last();
        assert(front[w] == pairs[w]);
        lemma_has_last(front, key);
        let l = last_at(front, key);
        assert(is_last_at(front, key, l));
        assert(is_last_at(pairs, key, l)) by {
            assert(pairs[l] == front[l]);
            assert forall|k: int| l < k < pairs.len() implies (#[trigger] pairs[k]).0 != key by {
                if k < n - 1 {
                    assert(front[k] == pairs[k]);
                }
            }
        }
        lemma_last_unique(pairs, key, l);
    }
}

/// A list that does not end in `key` has the key where its front has it,
/// and last at the same position.
pub proof fn lemma_last_in_front<A>(items: Seq<(Seq<char>, A)>, key: Seq<char>)
    requires
        items.len() > 0,
        items.last().0 != key,
    ensures
        has_key(items, key) == has_key(items.drop_last(), key),
        has_key(items, key) ==> last_at(items, key) == last_at(items.drop_last(), key),
{
    let front = items.drop_last();
    if has_key(front, key) {
        let w = choose|w: int| 0 <= w < front.len() && (#[trigger] front[w]).0 == key;
        assert(items[w] == front[w]);
        assert(has_key(items, key));
    }
    if has_key(items, key) {
        let w = choose|w: int| 0 <= w < items.len() && (#[trigger] items[w]).0 == key;
        assert(front[w] == items[w]);
        assert(has_key(front, key));
        lemma_has_last(front, key);
        let l = last_at(front, key);
        assert(is_last_at(items, key, l)) by {
            assert(items[l] == front[l]);
            assert forall|k: int| l < k < items.len() implies (#[trigger] items[k]).0 != key by {
                if k < front.len() {
                    assert(front[k] == items[k]);
                }
            }
        }
        lemma_last_unique(items, key, l);
    }
}

/// After all of `items` are put on top of `base`, a key among the items
/// has the value of its last item, and any other key has the value it had
/// in `base`. Keys that were distinct in `base` stay so.
pub proof fn lemma_put_all<A>(base: Seq<(Seq<char>, A)>, items: Seq<(Seq<char>, A)>, key: Seq<char>)
    ensures
        value_of(put_all(base, items), key) == if has_key(items, key) {
            Some(items[last_at(items, key)].1)
        } else {
            value_of(base, key)
        },
        distinct(base) ==> distinct(put_all(base, items)),
    decreases items.len(),
{
    if items.len() > 0 {
        let front = items.drop_last();
        let last = items.last();
        lemma_put_all(base, front, key);
        lemma_put(put_all(base, front), last.0, last.1, key);
        if last.0 == key {
            assert(is_last_at(items, key, items.len() - 1));
            lemma_last_unique(items, key, items.len() - 1);
        } else {
            lemma_last_in_front(items, key);
            if has_key(items, key) {
                lemma_has_last(front, key);
                assert(items[last_at(front, key)] == front[last_at(front, key)]);
            }
        }
    }
}

/// The variables of a package hold every secret with its value, and every
/// plain variable that no secret overrides with its own.
pub proof fn packed_secrets_win(md: AppMetadataView, package_filename: Seq<char>, key: Seq<char>)
    ensures
        value_of(PackedAppMetadata::packed(md, package_filename).env, key) == if has_key(md.secrets, key) {
            Some(md.secrets[last_at(md.secrets, key)].1)
        } else if has_key(md.env, key) {
            Some(md.env[last_at(md.env, key)].1)
        } else {
            None
        },
        distinct(PackedAppMetadata::packed(md, package_filename).env),
{
    let empty = Seq::<(Seq<char>, Seq<char>)>::empty();
    lemma_put_all(empty, md.env, key);
    lemma_put_all(put_all(empty, md.env), md.secrets, key);
    assert(value_of(empty, key) is None) by {
        if exists|i: int| first_at(empty, key, i) {
            let i = choose|i: int| first_at(empty, key, i);
            assert(first_at(empty, key, i));
        }
    }
}

} // verus!
