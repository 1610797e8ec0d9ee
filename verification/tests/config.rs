use boatctl::config::{
    normalize, AppConfig, EnvSpec, EnvSpecOrPlain, MysqlMetadata, PubsubMetadata, PubsubMetadataOrPlain,
};
use boatctl::config_loader::load;
use boatctl::decode::{decode_config, decode_list, decode_spec, decode_table, get_field, Readable};
use boatctl::document::{Entry, Node, Value};
use boatctl::keyed::SpannedMap;
use boatctl::package_builder::{build_env, package_output};
use boatctl::pattern::{apply_pattern, test_pattern, PatternOutcome};
use boatctl::span::{Located, NamedSource, SourceSpan};
use std::borrow::Cow;

fn at(start: usize, end: usize) -> SourceSpan {
    SourceSpan::new(start, end)
}

fn text(s: &str, start: usize, end: usize) -> Node {
    Node { value: Value::String(s.to_string()), span: at(start, end) }
}

fn entry(key: &str, node: Node) -> Entry {
    Entry { key: key.to_string(), key_span: at(0, 0), node }
}

fn table(entries: Vec<Entry>) -> Node {
    Node { value: Value::Table(entries), span: at(0, 100) }
}

#[test]
fn a_bare_key_stands_for_a_required_key_without_a_pattern() {
    let plain = EnvSpecOrPlain::Plain("FOO".to_string());
    let spec = plain.to_env_spec();
    assert!(matches!(spec, Cow::Owned(_)));
    assert_eq!(spec.key, "FOO");
    assert_eq!(spec.regex, None);
    assert!(!spec.optional);
}

#[test]
fn a_record_is_its_own_canonical_form() {
    let record = EnvSpecOrPlain::Spec(EnvSpec { key: "BAR".to_string(), regex: Some("^x$".to_string()), optional: true });
    let spec = record.to_env_spec();
    assert!(matches!(spec, Cow::Borrowed(_)));
    assert_eq!(spec.key, "BAR");
    assert_eq!(spec.regex.as_deref(), Some("^x$"));
    assert!(spec.optional);
}

#[test]
fn a_copy_of_a_record_holds_the_same() {
    let record = EnvSpec { key: "K".to_string(), regex: Some("r".to_string()), optional: true };
    let copy = record.clone();
    assert_eq!((copy.key, copy.regex, copy.optional), ("K".to_string(), Some("r".to_string()), true));
    let mysql = MysqlMetadata { url: "u".to_string(), root_certificate: Some("c".to_string()) };
    let copy = mysql.clone();
    assert_eq!((copy.url, copy.root_certificate), ("u".to_string(), Some("c".to_string())));
}

fn pubsub_config() -> AppConfig {
    AppConfig {
        id: "app".to_string(),
        env: SpannedMap::new(),
        secrets: SpannedMap::new(),
        mysql: SpannedMap::new(),
        pubsub: SpannedMap::new()
            .insert("a".to_string(), at(1, 2), PubsubMetadataOrPlain::Plain("short".to_string()))
            .insert(
                "b".to_string(),
                at(3, 4),
                PubsubMetadataOrPlain::Metadata(PubsubMetadata { namespace: "full".to_string() }),
            ),
        detached_secrets: true,
    }
}

fn pubsub_of(config: &AppConfig) -> Vec<(String, SourceSpan, String)> {
    (0..config.pubsub.len())
        .map(|i| {
            let (key, span, value) = config.pubsub.get_index(i).unwrap();
            (key.clone(), span, value.unwrap_as_metadata().namespace.clone())
        })
        .collect()
}

#[test]
fn normal_form_has_every_binding_structured_and_is_reached_at_once() {
    assert!(!pubsub_config().is_normalized());
    let once = normalize(pubsub_config());
    assert!(once.is_normalized());
    let expected =
        vec![("a".to_string(), at(1, 2), "short".to_string()), ("b".to_string(), at(3, 4), "full".to_string())];
    assert_eq!(pubsub_of(&once), expected);
    assert_eq!(once.id, "app");
    assert!(once.detached_secrets);
    let twice = normalize(once);
    assert_eq!(pubsub_of(&twice), expected);
}

#[test]
fn a_binding_is_brought_into_its_structured_form() {
    assert_eq!(PubsubMetadataOrPlain::Plain("n".to_string()).to_metadata().namespace, "n");
    let full = PubsubMetadataOrPlain::Metadata(PubsubMetadata { namespace: "m".to_string() });
    assert_eq!(full.to_metadata().namespace, "m");
    assert_eq!(full.unwrap_as_metadata().namespace, "m");
}

#[test]
fn a_loaded_configuration_is_in_normal_form() {
    let spec = "artifact = \"index.js\"\n";
    let config = "id = \"app\"\n[pubsub]\nevents = \"ns1\"\n[pubsub.jobs]\nnamespace = \"ns2\"\n[mysql.main]\nurl = \"mysql://db\"\n";
    let (_, parsed) = load(("s", spec), ("c", config)).unwrap();
    let got = pubsub_of(&parsed);
    assert_eq!(got.len(), 2);
    assert_eq!((got[0].0.as_str(), got[0].2.as_str()), ("events", "ns1"));
    assert_eq!((got[1].0.as_str(), got[1].2.as_str()), ("jobs", "ns2"));
    let (span, mysql) = parsed.mysql.get_key_value("main").unwrap();
    assert_eq!(&config[span.start..span.end], "main");
    assert_eq!(mysql.url, "mysql://db");
    assert_eq!(mysql.root_certificate, None);
}

#[test]
fn a_mapping_keeps_keys_once_and_in_the_order_they_came() {
    let map = SpannedMap::new()
        .insert("x".to_string(), at(0, 1), 1u8)
        .insert("y".to_string(), at(2, 3), 2u8)
        .insert("x".to_string(), at(4, 5), 3u8);
    assert_eq!(map.len(), 2);
    assert_eq!(map.get_index(0), Some((&"x".to_string(), at(4, 5), &3u8)));
    assert_eq!(map.get_index(1), Some((&"y".to_string(), at(2, 3), &2u8)));
    assert_eq!(map.get_index(2), None);
    assert_eq!(map.get_key_value("y"), Some((at(2, 3), &2u8)));
    assert_eq!(map.get_key_value("z"), None);
    let map = map.replace_value(1, 9u8);
    assert_eq!(map.get_key_value("y"), Some((at(2, 3), &9u8)));
    let map = map.replace_value(5, 7u8);
    assert_eq!(map.len(), 2);
    let empty: SpannedMap<u8> = SpannedMap::new();
    assert_eq!(empty.len(), 0);
    assert_eq!(empty.get_index(0), None);
}

#[test]
fn the_first_entry_with_a_key_is_the_field() {
    let entries = vec![entry("a", text("1", 0, 1)), entry("b", text("2", 2, 3)), entry("a", text("3", 4, 5))];
    assert_eq!(get_field(&entries, "a").map(|n| n.span), Some(at(0, 1)));
    assert_eq!(get_field(&entries, "b").map(|n| n.span), Some(at(2, 3)));
    assert!(get_field(&entries, "c").is_none());
}

#[test]
fn a_requirement_is_a_string_or_a_table_with_a_key() {
    let item = EnvSpecOrPlain::decode(&text("A", 5, 8)).unwrap();
    assert!(matches!(&item, EnvSpecOrPlain::Plain(k) if k == "A"));

    let full = Node {
        value: Value::Table(vec![
            entry("key", text("B", 0, 0)),
            entry("regex", text("^b$", 0, 0)),
            entry("optional", Node { value: Value::Boolean(true), span: at(0, 0) }),
        ]),
        span: at(10, 40),
    };
    let item = EnvSpecOrPlain::decode(&full).unwrap();
    assert!(matches!(&item, EnvSpecOrPlain::Spec(s) if s.key == "B" && s.regex.as_deref() == Some("^b$") && s.optional));

    let keyless = Node { value: Value::Table(vec![entry("regex", text("^b$", 0, 0))]), span: at(10, 40) };
    assert_eq!(EnvSpecOrPlain::decode(&keyless).unwrap_err(), Some(at(10, 40)));
    let bad_flag = Node {
        value: Value::Table(vec![entry("key", text("B", 0, 0)), entry("optional", text("yes", 50, 55))]),
        span: at(10, 40),
    };
    assert_eq!(EnvSpecOrPlain::decode(&bad_flag).unwrap_err(), Some(at(10, 40)));
    let number = Node { value: Value::Integer, span: at(3, 4) };
    assert_eq!(EnvSpecOrPlain::decode(&number).unwrap_err(), Some(at(3, 4)));
}

#[test]
fn bindings_are_read_in_their_own_shapes() {
    assert_eq!(String::decode(&text("v", 1, 4)).unwrap(), "v");
    assert_eq!(String::decode(&Node { value: Value::Datetime, span: at(1, 4) }).unwrap_err(), Some(at(1, 4)));

    let mysql = Node {
        value: Value::Table(vec![entry("url", text("mysql://db", 0, 0)), entry("root_certificate", text("pem", 0, 0))]),
        span: at(10, 40),
    };
    let m = MysqlMetadata::decode(&mysql).unwrap();
    assert_eq!((m.url.as_str(), m.root_certificate.as_deref()), ("mysql://db", Some("pem")));
    let bad_url = Node {
        value: Value::Table(vec![entry("url", Node { value: Value::Integer, span: at(20, 22) })]),
        span: at(10, 40),
    };
    assert_eq!(MysqlMetadata::decode(&bad_url).unwrap_err(), Some(at(20, 22)));
    assert_eq!(MysqlMetadata::decode(&text("mysql://db", 5, 9)).unwrap_err(), Some(at(5, 9)));

    let short = PubsubMetadataOrPlain::decode(&text("ns", 0, 0)).unwrap();
    assert!(matches!(&short, PubsubMetadataOrPlain::Plain(n) if n == "ns"));
    let full = Node { value: Value::Table(vec![entry("namespace", text("ns", 0, 0))]), span: at(10, 40) };
    let full = PubsubMetadataOrPlain::decode(&full).unwrap();
    assert!(matches!(&full, PubsubMetadataOrPlain::Metadata(m) if m.namespace == "ns"));
    let bad = Node {
        value: Value::Table(vec![entry("namespace", Node { value: Value::Float, span: at(20, 22) })]),
        span: at(10, 40),
    };
    assert_eq!(PubsubMetadataOrPlain::decode(&bad).unwrap_err(), Some(at(10, 40)));
}

#[test]
fn a_list_is_read_item_by_item_and_stops_at_the_first_wrong_one() {
    let items = |nodes| vec![entry("list", Node { value: Value::Array(nodes), span: at(0, 90) })];
    let list = decode_list::<String>(&items(vec![text("a", 1, 2), text("b", 3, 4)]), "list").unwrap();
    assert_eq!(list.len(), 2);
    assert_eq!((list[0].value.as_str(), list[0].span), ("a", at(1, 2)));
    assert_eq!((list[1].value.as_str(), list[1].span), ("b", at(3, 4)));
    assert!(decode_list::<String>(&items(vec![]), "other").unwrap().is_empty());
    let wrong = items(vec![
        text("a", 1, 2),
        Node { value: Value::Integer, span: at(5, 6) },
        Node { value: Value::Float, span: at(7, 8) },
    ]);
    assert_eq!(decode_list::<String>(&wrong, "list").unwrap_err(), Some(at(5, 6)));
    let not_a_list = vec![entry("list", text("a", 11, 12))];
    assert_eq!(decode_list::<String>(&not_a_list, "list").unwrap_err(), Some(at(11, 12)));
}

#[test]
fn a_table_is_read_entry_by_entry_and_a_later_key_overrides() {
    let row = |key: &str, start, node| Entry { key: key.to_string(), key_span: at(start, start + 1), node };
    let rows = |rows| vec![entry("table", Node { value: Value::Table(rows), span: at(0, 90) })];
    let table = decode_table::<String>(
        &rows(vec![row("x", 1, text("1", 0, 0)), row("y", 3, text("2", 0, 0)), row("x", 5, text("3", 0, 0))]),
        "table",
    )
    .unwrap();
    assert_eq!(table.len(), 2);
    assert_eq!(table.get_index(0), Some((&"x".to_string(), at(5, 6), &"3".to_string())));
    assert_eq!(table.get_index(1), Some((&"y".to_string(), at(3, 4), &"2".to_string())));
    assert_eq!(decode_table::<String>(&rows(vec![]), "other").unwrap().len(), 0);
    let wrong = rows(vec![row("x", 1, text("1", 0, 0)), row("y", 3, Node { value: Value::Boolean(true), span: at(8, 12) })]);
    assert_eq!(decode_table::<String>(&wrong, "table").unwrap_err(), Some(at(8, 12)));
    let not_a_table = vec![entry("table", text("a", 11, 12))];
    assert_eq!(decode_table::<String>(&not_a_table, "table").unwrap_err(), Some(at(11, 12)));
}

#[test]
fn a_specification_needs_an_artifact_and_lists_where_lists_are_due() {
    let ok = table(vec![entry("artifact", text("index.js", 0, 0)), entry("build", text("make", 0, 0))]);
    let spec = decode_spec(&ok).unwrap();
    assert_eq!(spec.artifact, "index.js");
    assert_eq!(spec.build.as_deref(), Some("make"));
    assert_eq!(spec._static, None);
    assert!(spec.env.is_empty() && spec.secrets.is_empty() && spec.mysql.is_empty());

    assert_eq!(decode_spec(&table(vec![])).unwrap_err(), None);
    assert_eq!(decode_spec(&text("x", 7, 8)).unwrap_err(), Some(at(7, 8)));
    let env_is_text = table(vec![entry("artifact", text("a", 0, 0)), entry("env", text("A", 20, 23))]);
    assert_eq!(decode_spec(&env_is_text).unwrap_err(), Some(at(20, 23)));
    let mysql_holds_flag = table(vec![
        entry("artifact", text("a", 0, 0)),
        entry(
            "mysql",
            Node {
                value: Value::Array(vec![text("db", 1, 2), Node { value: Value::Boolean(true), span: at(30, 34) }]),
                span: at(0, 0),
            },
        ),
    ]);
    assert_eq!(decode_spec(&mysql_holds_flag).unwrap_err(), Some(at(30, 34)));
    let first_wrong = table(vec![entry("artifact", Node { value: Value::Float, span: at(60, 63) }), entry("env", text("A", 20, 23))]);
    assert_eq!(decode_spec(&first_wrong).unwrap_err(), Some(at(20, 23)));
}

#[test]
fn a_configuration_needs_an_id_and_tables_where_tables_are_due() {
    let ok = table(vec![
        entry("id", text("app", 0, 0)),
        entry("env", Node { value: Value::Table(vec![Entry { key: "A".to_string(), key_span: at(9, 10), node: text("1", 13, 16) }]), span: at(0, 0) }),
        entry("detached_secrets", Node { value: Value::Boolean(true), span: at(0, 0) }),
    ]);
    let config = decode_config(&ok).unwrap();
    assert_eq!(config.id, "app");
    assert!(config.detached_secrets);
    assert_eq!(config.env.get_key_value("A"), Some((at(9, 10), &"1".to_string())));
    assert_eq!(config.secrets.len(), 0);

    assert_eq!(decode_config(&table(vec![])).unwrap_err(), None);
    let env_holds_number = table(vec![
        entry("id", text("app", 0, 0)),
        entry("env", Node { value: Value::Table(vec![entry("A", Node { value: Value::Integer, span: at(13, 14) })]), span: at(0, 0) }),
    ]);
    assert_eq!(decode_config(&env_holds_number).unwrap_err(), Some(at(13, 14)));
    let mysql_without_url = table(vec![
        entry("id", text("app", 0, 0)),
        entry("mysql", Node { value: Value::Table(vec![entry("main", Node { value: Value::Table(vec![]), span: at(40, 50) })]), span: at(0, 0) }),
    ]);
    assert_eq!(decode_config(&mysql_without_url).unwrap_err(), Some(at(40, 50)));
    let pubsub_is_list = table(vec![
        entry("id", text("app", 0, 0)),
        entry("pubsub", Node { value: Value::Table(vec![entry("e", Node { value: Value::Array(vec![]), span: at(70, 72) })]), span: at(0, 0) }),
    ]);
    assert_eq!(decode_config(&pubsub_is_list).unwrap_err(), Some(at(70, 72)));
}

#[test]
fn a_pattern_is_compiled_and_then_run() {
    assert_eq!(test_pattern("^[0-9]+$", "8080"), Some(true));
    assert_eq!(test_pattern("^[0-9]+$", "abc"), Some(false));
    assert_eq!(test_pattern("b", "abc"), Some(true));
    assert_eq!(test_pattern("([", "abc"), None);
}

#[test]
fn a_declared_pattern_is_compiled_even_without_a_value() {
    assert_eq!(apply_pattern(None, None), PatternOutcome::Undeclared);
    assert_eq!(apply_pattern(None, Some("x")), PatternOutcome::Undeclared);
    assert_eq!(apply_pattern(Some("(["), None), PatternOutcome::Invalid);
    assert_eq!(apply_pattern(Some("(["), Some("x")), PatternOutcome::Invalid);
    assert_eq!(apply_pattern(Some("^x$"), None), PatternOutcome::Untested);
    assert_eq!(apply_pattern(Some("^x$"), Some("x")), PatternOutcome::Tested(true));
    assert_eq!(apply_pattern(Some("^x$"), Some("y")), PatternOutcome::Tested(false));
}

#[test]
fn the_build_sees_the_plain_variables_under_a_prefix() {
    let config = AppConfig {
        id: "app".to_string(),
        env: SpannedMap::new().insert("A".to_string(), at(0, 0), "1".to_string()).insert(
            "PORT".to_string(),
            at(0, 0),
            "80".to_string(),
        ),
        secrets: SpannedMap::new().insert("S".to_string(), at(0, 0), "x".to_string()),
        mysql: SpannedMap::new(),
        pubsub: SpannedMap::new(),
        detached_secrets: false,
    };
    assert_eq!(
        build_env(&config),
        vec![("BLUEBOAT_A".to_string(), "1".to_string()), ("BLUEBOAT_PORT".to_string(), "80".to_string())]
    );
}

#[test]
fn the_package_goes_beside_the_metadata() {
    assert_eq!(package_output("out/app.json").as_deref(), Some("out/app.tar"));
    assert_eq!(package_output(".json").as_deref(), Some(".tar"));
    assert_eq!(package_output("schön.json").as_deref(), Some("schön.tar"));
    assert_eq!(package_output("app.tar"), None);
    assert_eq!(package_output("json"), None);
    assert_eq!(package_output(""), None);
}

#[test]
fn a_located_value_hands_out_its_value_and_its_range() {
    let l = Located::new(at(3, 9), "v".to_string());
    assert_eq!(l.get_ref(), "v");
    assert_eq!((l.start(), l.end()), (3, 9));
    assert_eq!(at(3, 9).offset(), 3);
    assert_eq!(SourceSpan::point(4), at(4, 4));
    assert!(at(3, 9).check_fits(9));
    assert!(!at(3, 9).check_fits(8));
    assert!(!at(9, 3).check_fits(20));
    let src = NamedSource::new("n", "t");
    assert_eq!((src.name.as_str(), src.text.as_str()), ("n", "t"));
}
