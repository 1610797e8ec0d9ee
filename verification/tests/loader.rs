use boatctl::config::{AppConfig, AppSpec, EnvSpec, EnvSpecOrPlain};
use boatctl::config_loader::{check_parsed, load, parse_toml, ConfigError};
use boatctl::validator::{
    judge, validate, validate_config_no_dup_env_or_secret, validate_env_defined_and_valid,
    validate_no_secret_defined_as_env, validate_spec_no_dup_env_or_secret, Fault,
};
use boatctl::document::{Node, SyntaxError, Value};
use boatctl::pattern::PatternOutcome;
use boatctl::keyed::SpannedMap;
use boatctl::span::{Located, SourceSpan};

fn plain(key: &str, start: usize, end: usize) -> Located<EnvSpecOrPlain> {
    Located::new(SourceSpan::new(start, end), EnvSpecOrPlain::Plain(key.to_string()))
}

fn record(key: &str, regex: Option<&str>, optional: bool, start: usize, end: usize) -> Located<EnvSpecOrPlain> {
    Located::new(
        SourceSpan::new(start, end),
        EnvSpecOrPlain::Spec(EnvSpec { key: key.to_string(), regex: regex.map(|r| r.to_string()), optional }),
    )
}

fn spec_of(env: Vec<Located<EnvSpecOrPlain>>, secrets: Vec<Located<EnvSpecOrPlain>>) -> AppSpec {
    AppSpec { env, secrets, mysql: vec![], build: None, _static: None, artifact: "index.js".to_string() }
}

fn map_of(entries: &[(&str, usize, usize, &str)]) -> SpannedMap<String> {
    let mut map = SpannedMap::new();
    for (key, start, end, value) in entries {
        map = map.insert(key.to_string(), SourceSpan::new(*start, *end), value.to_string());
    }
    map
}

fn config_of(env: &[(&str, usize, usize, &str)], secrets: &[(&str, usize, usize, &str)]) -> AppConfig {
    AppConfig {
        id: "app".to_string(),
        env: map_of(env),
        secrets: map_of(secrets),
        mysql: SpannedMap::new(),
        pubsub: SpannedMap::new(),
        detached_secrets: false,
    }
}

#[test]
fn loads_a_pair_of_documents_that_agree() {
    let spec = "artifact = \"index.js\"\nenv = [\"A\", { key = \"B\", optional = true }]\n";
    let config = "id = \"app\"\n[env]\nA = \"1\"\n";
    let (parsed_spec, parsed_config) = load(("Boat.spec.toml", spec), ("Boat.toml", config)).unwrap();
    assert_eq!(parsed_spec.env.len(), 2);
    assert!(matches!(&parsed_spec.env[0].value, EnvSpecOrPlain::Plain(k) if k == "A"));
    assert!(matches!(&parsed_spec.env[1].value, EnvSpecOrPlain::Spec(s) if s.key == "B" && s.optional && s.regex.is_none()));
    assert_eq!(parsed_spec.artifact, "index.js");
    assert_eq!(parsed_config.id, "app");
    assert_eq!(parsed_config.env.len(), 1);
    let (span, value) = parsed_config.env.get_key_value("A").unwrap();
    assert_eq!(value, "1");
    assert_eq!(&config[span.start..span.end], "A");
    assert!(parsed_config.env.get_key_value("B").is_none());
    assert!(parsed_config.secrets.get_key_value("B").is_none());
}

#[test]
fn a_secret_given_as_a_plain_variable_is_reported_in_the_configuration() {
    let spec = "artifact = \"index.js\"\nsecrets = [{ key = \"S\" }]\n";
    let config = "id = \"app\"\n[env]\nS = \"v\"\n";
    let err = load(("Boat.spec.toml", spec), ("Boat.toml", config)).unwrap_err();
    match err {
        ConfigError::SecretDefinedAsEnv { src, def } => {
            assert_eq!(src.name, "Boat.toml");
            assert_eq!(src.text, config);
            assert_eq!(&config[def.start..def.end], "S");
        },
        other => panic!("unexpected error: {:?}", other),
    }
}

fn scalar_spans(node: &Node, text: &str, out: &mut Vec<(String, String)>) {
    match &node.value {
        Value::String(s) => out.push((format!("{:?}", s), text[node.span.start..node.span.end].to_string())),
        Value::Boolean(b) => out.push((format!("{}", b), text[node.span.start..node.span.end].to_string())),
        Value::Array(items) => {
            for item in items {
                scalar_spans(item, text, out);
            }
        },
        Value::Table(entries) => {
            for entry in entries {
                assert_eq!(&text[entry.key_span.start..entry.key_span.end], entry.key);
                scalar_spans(&entry.node, text, out);
            }
        },
        _ => {},
    }
}

#[test]
fn every_scalar_is_found_again_at_its_span() {
    let text = "id = \"app\"\ndetached_secrets = true\n[env]\nPORT = \"8080\"\nNAME = \"boat\"\n[secrets]\nTOKEN = \"x\"\n";
    let tree = parse_toml("Boat.toml", text).unwrap();
    let mut found = Vec::new();
    scalar_spans(&tree, text, &mut found);
    assert_eq!(found.len(), 5);
    for (literal, slice) in found {
        assert_eq!(literal, slice);
    }
}

#[test]
fn a_parsed_tree_keeps_the_order_of_the_text() {
    let text = "z = \"1\"\na = \"2\"\nm = \"3\"\n";
    let tree = parse_toml("doc", text).unwrap();
    match tree.value {
        Value::Table(entries) => {
            let keys: Vec<&str> = entries.iter().map(|e| e.key.as_str()).collect();
            assert_eq!(keys, vec!["z", "a", "m"]);
        },
        other => panic!("unexpected root: {:?}", other),
    }
}

#[test]
fn a_text_that_is_no_document_is_a_parse_error_with_a_point() {
    let text = "id = \"app\"\nenv = [\n";
    let err = parse_toml("Boat.toml", text).unwrap_err();
    match err {
        ConfigError::Parse { src, bad_bit } => {
            assert_eq!(src.name, "Boat.toml");
            assert_eq!(src.text, text);
            let at = bad_bit.unwrap();
            assert_eq!(at.start, at.end);
            assert!(at.start <= text.len());
        },
        other => panic!("unexpected error: {:?}", other),
    }
}

#[test]
fn a_document_of_the_wrong_shape_is_a_parse_error_at_the_node() {
    let spec = "artifact = \"index.js\"\nenv = [\"A\", 7]\n";
    let config = "id = \"app\"\n";
    let err = load(("Boat.spec.toml", spec), ("Boat.toml", config)).unwrap_err();
    match err {
        ConfigError::Parse { src, bad_bit } => {
            assert_eq!(src.name, "Boat.spec.toml");
            let at = bad_bit.unwrap();
            assert_eq!(at, SourceSpan::point(spec.find('7').unwrap()));
        },
        other => panic!("unexpected error: {:?}", other),
    }
}

#[test]
fn a_specification_without_an_artifact_is_a_parse_error_without_a_point() {
    let err = load(("Boat.spec.toml", "env = []\n"), ("Boat.toml", "id = \"app\"\n")).unwrap_err();
    assert!(matches!(err, ConfigError::Parse { bad_bit: None, .. }));
}

#[test]
fn the_specification_is_parsed_before_the_configuration() {
    let err = load(("Boat.spec.toml", "artifact = \n"), ("Boat.toml", "id = \n")).unwrap_err();
    match err {
        ConfigError::Parse { src, .. } => assert_eq!(src.name, "Boat.spec.toml"),
        other => panic!("unexpected error: {:?}", other),
    }
}

#[test]
fn the_earlier_span_is_the_previous_definition_whichever_list_it_came_from() {
    let expected_prev = SourceSpan::new(10, 14);
    let expected_redef = SourceSpan::new(40, 44);
    let orders = vec![
        spec_of(vec![plain("A", 10, 14), plain("A", 40, 44)], vec![]),
        spec_of(vec![plain("A", 40, 44), plain("A", 10, 14)], vec![]),
        spec_of(vec![plain("A", 10, 14)], vec![plain("A", 40, 44)]),
        spec_of(vec![plain("A", 40, 44)], vec![plain("A", 10, 14)]),
        spec_of(vec![], vec![plain("A", 40, 44), plain("A", 10, 14)]),
    ];
    for spec in orders {
        let err = validate_spec_no_dup_env_or_secret(("spec", "text", &spec)).unwrap_err();
        match err {
            ConfigError::DuplicateSpecEnv { src, prev_def, redef } => {
                assert_eq!(src.name, "spec");
                assert_eq!(src.text, "text");
                assert_eq!(prev_def, expected_prev);
                assert_eq!(redef, expected_redef);
            },
            other => panic!("unexpected error: {:?}", other),
        }
    }
}

#[test]
fn the_first_key_met_twice_is_the_one_reported() {
    let spec = spec_of(
        vec![plain("A", 0, 1), plain("B", 2, 3), plain("B", 4, 5)],
        vec![plain("A", 6, 7)],
    );
    let err = validate_spec_no_dup_env_or_secret(("spec", "", &spec)).unwrap_err();
    assert!(matches!(
        err,
        ConfigError::DuplicateSpecEnv { prev_def, redef, .. }
            if prev_def == SourceSpan::new(2, 3) && redef == SourceSpan::new(4, 5)
    ));
}

#[test]
fn distinct_keys_pass_the_duplicate_checks() {
    let spec = spec_of(vec![plain("A", 0, 1), plain("B", 2, 3)], vec![plain("C", 4, 5)]);
    assert!(validate_spec_no_dup_env_or_secret(("spec", "", &spec)).is_ok());
    let config = config_of(&[("A", 0, 1, "1")], &[("B", 2, 3, "2")]);
    assert!(validate_config_no_dup_env_or_secret(("config", "", &config)).is_ok());
}

#[test]
fn a_key_in_both_namespaces_of_the_configuration_is_a_duplicate() {
    let config = config_of(&[("A", 30, 31, "1")], &[("A", 5, 6, "2")]);
    let err = validate_config_no_dup_env_or_secret(("config", "text", &config)).unwrap_err();
    match err {
        ConfigError::DuplicateConfigEnv { src, prev_def, redef } => {
            assert_eq!(src.name, "config");
            assert_eq!(prev_def, SourceSpan::new(5, 6));
            assert_eq!(redef, SourceSpan::new(30, 31));
        },
        other => panic!("unexpected error: {:?}", other),
    }
}

#[test]
fn a_required_key_without_a_value_is_reported_at_the_requirement() {
    let spec = spec_of(vec![plain("A", 3, 6), record("B", None, true, 8, 30)], vec![plain("S", 40, 43)]);
    let config = config_of(&[("A", 100, 101, "1")], &[]);
    let err = validate_env_defined_and_valid(("spec", "spec text", &spec), ("config", "config text", &config))
        .unwrap_err();
    match err {
        ConfigError::UndefinedEnv { src, def } => {
            assert_eq!(src.name, "spec");
            assert_eq!(src.text, "spec text");
            assert_eq!(def, SourceSpan::new(40, 43));
        },
        other => panic!("unexpected error: {:?}", other),
    }
}

#[test]
fn a_secret_satisfies_a_plain_requirement() {
    let spec = spec_of(vec![plain("A", 3, 6)], vec![]);
    let config = config_of(&[], &[("A", 10, 11, "1")]);
    assert!(validate(("spec", "", &spec), ("config", "", &config)).is_ok());
}

#[test]
fn a_value_is_held_against_the_declared_pattern() {
    let spec = spec_of(vec![record("PORT", Some("^[0-9]+$"), false, 3, 20)], vec![]);
    let bad = config_of(&[("PORT", 7, 11, "abc")], &[]);
    let err = validate_env_defined_and_valid(("spec", "s", &spec), ("config", "c", &bad)).unwrap_err();
    match err {
        ConfigError::EnvDoesNotMatchSpec { src, def, help } => {
            assert_eq!(src.name, "config");
            assert_eq!(src.text, "c");
            assert_eq!(def, SourceSpan::new(7, 11));
            assert_eq!(help, "regex: ^[0-9]+$");
        },
        other => panic!("unexpected error: {:?}", other),
    }
    let good = config_of(&[("PORT", 7, 11, "8080")], &[]);
    assert!(validate_env_defined_and_valid(("spec", "s", &spec), ("config", "c", &good)).is_ok());
}

#[test]
fn a_pattern_that_does_not_compile_is_reported_whatever_the_value() {
    let spec = spec_of(vec![record("PORT", Some("(["), true, 3, 20)], vec![]);
    for config in [config_of(&[("PORT", 7, 11, "8080")], &[]), config_of(&[], &[])] {
        let err = validate_env_defined_and_valid(("spec", "s", &spec), ("config", "c", &config)).unwrap_err();
        match err {
            ConfigError::InvalidEnvRegex { src, def } => {
                assert_eq!(src.name, "spec");
                assert_eq!(def, SourceSpan::new(3, 20));
            },
            other => panic!("unexpected error: {:?}", other),
        }
    }
}

#[test]
fn a_missing_value_is_reported_before_a_bad_pattern() {
    let spec = spec_of(vec![record("PORT", Some("(["), false, 3, 20)], vec![]);
    let config = config_of(&[], &[]);
    let err = validate_env_defined_and_valid(("spec", "s", &spec), ("config", "c", &config)).unwrap_err();
    assert!(matches!(err, ConfigError::UndefinedEnv { def, .. } if def == SourceSpan::new(3, 20)));
}

#[test]
fn a_secret_among_the_plain_variables_is_reported_on_its_own() {
    let spec = spec_of(vec![], vec![record("TOKEN", None, false, 3, 20)]);
    let config = config_of(&[("TOKEN", 50, 55, "x")], &[]);
    let err = validate_no_secret_defined_as_env(("spec", "s", &spec), ("config", "c", &config)).unwrap_err();
    match err {
        ConfigError::SecretDefinedAsEnv { src, def } => {
            assert_eq!(src.name, "config");
            assert_eq!(src.text, "c");
            assert_eq!(def, SourceSpan::new(50, 55));
        },
        other => panic!("unexpected error: {:?}", other),
    }
    let err = validate(("spec", "s", &spec), ("config", "c", &config)).unwrap_err();
    assert!(matches!(err, ConfigError::SecretDefinedAsEnv { def, .. } if def == SourceSpan::new(50, 55)));
}

#[test]
fn a_bare_key_validates_like_the_record_it_stands_for() {
    let configs = vec![
        config_of(&[], &[]),
        config_of(&[("FOO", 1, 4, "x")], &[]),
        config_of(&[], &[("FOO", 1, 4, "x")]),
        config_of(&[("FOO", 1, 4, "x")], &[("FOO", 9, 12, "y")]),
    ];
    for config in configs {
        for as_secret in [false, true] {
            let (bare, full) = if as_secret {
                (
                    spec_of(vec![], vec![plain("FOO", 20, 25)]),
                    spec_of(vec![], vec![record("FOO", None, false, 20, 25)]),
                )
            } else {
                (
                    spec_of(vec![plain("FOO", 20, 25)], vec![]),
                    spec_of(vec![record("FOO", None, false, 20, 25)], vec![]),
                )
            };
            let a = validate(("spec", "s", &bare), ("config", "c", &config));
            let b = validate(("spec", "s", &full), ("config", "c", &config));
            assert_eq!(format!("{:?}", a), format!("{:?}", b));
        }
    }
}

#[test]
fn the_checks_run_in_their_fixed_order() {
    let spec = spec_of(
        vec![plain("A", 0, 1), plain("A", 2, 3), plain("MISSING", 4, 5)],
        vec![plain("S", 6, 7)],
    );
    let config = config_of(&[("S", 10, 11, "v"), ("D", 12, 13, "1")], &[("D", 14, 15, "2")]);
    let err = validate(("spec", "s", &spec), ("config", "c", &config)).unwrap_err();
    assert!(matches!(err, ConfigError::DuplicateSpecEnv { .. }));

    let spec = spec_of(vec![plain("A", 0, 1), plain("MISSING", 4, 5)], vec![plain("S", 6, 7)]);
    let err = validate(("spec", "s", &spec), ("config", "c", &config)).unwrap_err();
    assert!(matches!(err, ConfigError::DuplicateConfigEnv { .. }));

    let config = config_of(&[("S", 10, 11, "v"), ("A", 12, 13, "1")], &[]);
    let err = validate(("spec", "s", &spec), ("config", "c", &config)).unwrap_err();
    assert!(matches!(err, ConfigError::UndefinedEnv { .. }));

    let spec = spec_of(vec![plain("A", 0, 1)], vec![plain("S", 6, 7)]);
    let err = validate(("spec", "s", &spec), ("config", "c", &config)).unwrap_err();
    assert!(matches!(err, ConfigError::SecretDefinedAsEnv { .. }));
}

#[test]
fn a_requirement_is_judged_by_presence_then_by_its_pattern() {
    let outcomes = [
        PatternOutcome::Undeclared,
        PatternOutcome::Invalid,
        PatternOutcome::Untested,
        PatternOutcome::Tested(true),
        PatternOutcome::Tested(false),
    ];
    for outcome in outcomes {
        assert_eq!(judge(false, false, outcome), Some(Fault::Undefined));
        let expected = match outcome {
            PatternOutcome::Invalid => Some(Fault::InvalidRegex),
            PatternOutcome::Tested(false) => Some(Fault::Mismatch),
            _ => None,
        };
        assert_eq!(judge(false, true, outcome), expected);
        assert_eq!(judge(true, true, outcome), expected);
        assert_eq!(judge(true, false, outcome), expected);
    }
}

#[test]
fn the_outcome_of_the_parser_is_checked_against_the_text() {
    let tree = |start, end| Node { value: Value::Table(vec![]), span: SourceSpan::new(start, end) };
    let ok = check_parsed("doc", "abc", Ok(tree(0, 3))).unwrap();
    assert_eq!(ok.span, SourceSpan::new(0, 3));
    let err = check_parsed("doc", "abc", Ok(tree(0, 4))).unwrap_err();
    assert!(matches!(err, ConfigError::Parse { bad_bit: None, .. }));
    let err = check_parsed("doc", "abc", Ok(tree(2, 1))).unwrap_err();
    assert!(matches!(err, ConfigError::Parse { bad_bit: None, .. }));
    let failure = |span| Err(SyntaxError { message: "bad".to_string(), span });
    let err = check_parsed("doc", "abc", failure(Some(SourceSpan::new(1, 2)))).unwrap_err();
    match err {
        ConfigError::Parse { src, bad_bit } => {
            assert_eq!((src.name.as_str(), src.text.as_str()), ("doc", "abc"));
            assert_eq!(bad_bit, Some(SourceSpan::point(1)));
        },
        other => panic!("unexpected error: {:?}", other),
    }
    let err = check_parsed("doc", "abc", failure(Some(SourceSpan::new(3, 9)))).unwrap_err();
    assert!(matches!(err, ConfigError::Parse { bad_bit: Some(p), .. } if p == SourceSpan::point(3)));
    let err = check_parsed("doc", "abc", failure(Some(SourceSpan::new(4, 9)))).unwrap_err();
    assert!(matches!(err, ConfigError::Parse { bad_bit: None, .. }));
    let err = check_parsed("doc", "abc", failure(None)).unwrap_err();
    assert!(matches!(err, ConfigError::Parse { bad_bit: None, .. }));
    let nested = Node {
        value: Value::Array(vec![Node { value: Value::Integer, span: SourceSpan::new(1, 9) }]),
        span: SourceSpan::new(0, 3),
    };
    assert!(check_parsed("doc", "abc", Ok(nested)).is_err());
}
