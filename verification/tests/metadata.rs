use boatctl::config::{AppConfig, MysqlMetadata, PubsubMetadata, PubsubMetadataOrPlain};
use boatctl::keyed::SpannedMap;
use boatctl::metadata::{put_entry, AppMetadata, PackedAppMetadata};
use boatctl::span::SourceSpan;

fn pair(key: &str, value: &str) -> (String, String) {
    (key.to_string(), value.to_string())
}

fn sample_config() -> AppConfig {
    let at = SourceSpan::new(0, 0);
    AppConfig {
        id: "app".to_string(),
        env: SpannedMap::new().insert("A".to_string(), at, "1".to_string()).insert(
            "B".to_string(),
            at,
            "2".to_string(),
        ),
        secrets: SpannedMap::new().insert("S".to_string(), at, "x".to_string()),
        mysql: SpannedMap::new().insert(
            "main".to_string(),
            at,
            MysqlMetadata { url: "mysql://db".to_string(), root_certificate: None },
        ),
        pubsub: SpannedMap::new().insert(
            "events".to_string(),
            at,
            PubsubMetadataOrPlain::Metadata(PubsubMetadata { namespace: "ns".to_string() }),
        ),
        detached_secrets: false,
    }
}

#[test]
fn metadata_holds_the_values_of_the_configuration_in_its_order() {
    let md = AppMetadata::from_config(&sample_config());
    assert_eq!(md.env, vec![pair("A", "1"), pair("B", "2")]);
    assert_eq!(md.secrets, vec![pair("S", "x")]);
    assert_eq!(md.mysql.len(), 1);
    assert_eq!(md.mysql[0].0, "main");
    assert_eq!(md.mysql[0].1.url, "mysql://db");
    assert_eq!(md.mysql[0].1.root_certificate, None);
    assert_eq!(md.pubsub.len(), 1);
    assert_eq!(md.pubsub[0].0, "events");
    assert_eq!(md.pubsub[0].1.namespace, "ns");
}

#[test]
fn a_package_carries_the_secrets_among_the_variables() {
    let md = AppMetadata {
        env: vec![pair("A", "1"), pair("B", "2")],
        secrets: vec![pair("B", "secret"), pair("S", "x")],
        mysql: vec![("main".to_string(), MysqlMetadata { url: "u".to_string(), root_certificate: Some("c".to_string()) })],
        pubsub: vec![("events".to_string(), PubsubMetadata { namespace: "ns".to_string() })],
    };
    let packed = PackedAppMetadata::new(&md, "app.tar");
    assert_eq!(packed.version, "app");
    assert_eq!(packed.package, "app.tar");
    assert_eq!(packed.env, vec![pair("A", "1"), pair("B", "secret"), pair("S", "x")]);
    assert_eq!(packed.mysql.len(), 1);
    assert_eq!(packed.mysql[0].0, "main");
    assert_eq!(packed.mysql[0].1.url, "u");
    assert_eq!(packed.mysql[0].1.root_certificate.as_deref(), Some("c"));
    assert_eq!(packed.pubsub.len(), 1);
    assert_eq!(packed.pubsub[0].1.namespace, "ns");
}

#[test]
fn putting_a_key_again_replaces_its_value_in_place() {
    let mut pairs: Vec<(String, String)> = Vec::new();
    put_entry(&mut pairs, "A".to_string(), "1".to_string());
    put_entry(&mut pairs, "B".to_string(), "2".to_string());
    put_entry(&mut pairs, "A".to_string(), "3".to_string());
    assert_eq!(pairs, vec![pair("A", "3"), pair("B", "2")]);
}
