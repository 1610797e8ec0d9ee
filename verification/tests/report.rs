use boatctl::config_loader::{load, ConfigError};
use boatctl::report::{Diagnostic, Label};
use boatctl::span::{NamedSource, SourceSpan};

#[test]
fn a_mismatch_is_drawn_with_its_line_its_label_and_its_hint() {
    let spec = "artifact = \"index.js\"\nenv = [\"A\", { key = \"PORT\", regex = \"^[0-9]+$\" }]\n";
    let config = "id = \"app\"\n[env]\nA = \"1\"\nPORT = \"abc\"\n";
    let err = load(("Boat.spec.toml", spec), ("Boat.toml", config)).unwrap_err();
    let expected = "boatctl::config::invalid_env\n\
\n  × environment variable value does not match spec\
\n   ╭─[Boat.toml:4:1]\
\n 3 │ A = \"1\"\
\n 4 │ PORT = \"abc\"\
\n   · ──┬─\
\n   ·   ╰── defined here\
\n   ╰────\
\n  help: regex: ^[0-9]+$\n";
    assert_eq!(err.render().unwrap(), expected);
}

#[test]
fn a_duplicate_is_drawn_with_both_of_its_places() {
    let dup = ConfigError::DuplicateSpecEnv {
        src: NamedSource::new("x", "a\nb\nc\nd\ne\nf\ng\n"),
        prev_def: SourceSpan::new(0, 1),
        redef: SourceSpan::new(12, 13),
    };
    let expected = "boatctl::config::dup_env\n\
\n  × duplicate environment variable in spec\
\n   ╭─[x:1:1]\
\n 1 │ a\
\n   · ┬\
\n   · ╰── previous definition\
\n 2 │ b\
\n   ╰────\
\n   ╭─[x:7:1]\
\n 6 │ f\
\n 7 │ g\
\n   · ┬\
\n   · ╰── redefined here\
\n   ╰────\n";
    assert_eq!(dup.render().unwrap(), expected);
}

#[test]
fn a_parse_error_is_drawn_with_its_point() {
    let err = ConfigError::Parse { src: NamedSource::new("x", "a = \n"), bad_bit: Some(SourceSpan::point(4)) };
    let expected = "boatctl::config::parse\n\
\n  × cannot parse config\
\n   ╭─[x:1:5]\
\n 1 │ a = \
\n   ·     ▲\
\n   ·     ╰── This bit here\
\n   ╰────\n";
    assert_eq!(err.render().unwrap(), expected);
}

#[test]
fn a_parse_error_without_a_point_is_drawn_without_a_snippet() {
    let err = ConfigError::Parse { src: NamedSource::new("x", "a = \n"), bad_bit: None };
    assert_eq!(err.render().unwrap(), "boatctl::config::parse\n\n  × cannot parse config\n");
}

#[test]
fn an_error_that_points_outside_its_text_is_not_drawn() {
    let beyond = ConfigError::UndefinedEnv { src: NamedSource::new("x", "abc"), def: SourceSpan::new(2, 9) };
    assert_eq!(beyond.render(), None);
    let backwards = ConfigError::UndefinedEnv { src: NamedSource::new("x", "abc"), def: SourceSpan::new(2, 1) };
    assert_eq!(backwards.render(), None);
    let whole = ConfigError::UndefinedEnv { src: NamedSource::new("x", "abc"), def: SourceSpan::new(0, 3) };
    assert!(whole.render().is_some());
}

#[test]
fn every_kind_of_error_has_its_message_code_and_label() {
    let src = || NamedSource::new("doc", "key = 1\n");
    let a = SourceSpan::new(0, 3);
    let b = SourceSpan::new(6, 7);
    let cases: Vec<(ConfigError, &str, &str, Vec<(&str, SourceSpan)>, Option<&str>)> = vec![
        (
            ConfigError::Parse { src: src(), bad_bit: Some(SourceSpan::point(6)) },
            "cannot parse config",
            "boatctl::config::parse",
            vec![("This bit here", SourceSpan::point(6))],
            None,
        ),
        (
            ConfigError::DuplicateSpecEnv { src: src(), prev_def: a, redef: b },
            "duplicate environment variable in spec",
            "boatctl::config::dup_env",
            vec![("previous definition", a), ("redefined here", b)],
            None,
        ),
        (
            ConfigError::DuplicateConfigEnv { src: src(), prev_def: a, redef: b },
            "duplicate environment variable in config",
            "boatctl::config::dup_env",
            vec![("previous definition", a), ("redefined here", b)],
            None,
        ),
        (
            ConfigError::UndefinedEnv { src: src(), def: a },
            "undefined environment variable",
            "boatctl::config::undefined_env",
            vec![("specified here", a)],
            None,
        ),
        (
            ConfigError::InvalidEnvRegex { src: src(), def: a },
            "invalid regex for environment variable",
            "boatctl::config::invalid_regex",
            vec![("specified here", a)],
            None,
        ),
        (
            ConfigError::EnvDoesNotMatchSpec { src: src(), def: a, help: "regex: x".to_string() },
            "environment variable value does not match spec",
            "boatctl::config::invalid_env",
            vec![("defined here", a)],
            Some("regex: x"),
        ),
        (
            ConfigError::SecretDefinedAsEnv { src: src(), def: a },
            "secret defined as env",
            "boatctl::config::secret_as_env",
            vec![("defined as env here", a)],
            None,
        ),
    ];
    for (error, message, code, labels, help) in cases {
        let d = error.to_diagnostic();
        assert_eq!(d.message, message);
        assert_eq!(d.code, code);
        assert_eq!(d.help.as_deref(), help);
        assert_eq!(d.src.name, "doc");
        assert_eq!(d.src.text, "key = 1\n");
        let got: Vec<(&str, SourceSpan)> = d.labels.iter().map(|l| (l.text.as_str(), l.span)).collect();
        assert_eq!(got, labels);
        assert!(d.is_well_placed());
    }
}

#[test]
fn a_diagnostic_made_by_hand_is_drawn_as_given() {
    let d = Diagnostic {
        message: "something is off".to_string(),
        code: "demo::off".to_string(),
        help: Some("try again".to_string()),
        src: NamedSource::new("notes.txt", "first line\nsecond line\n"),
        labels: vec![Label { text: "here".to_string(), span: SourceSpan::new(11, 17) }],
    };
    let expected = "demo::off\n\
\n  × something is off\
\n   ╭─[notes.txt:2:1]\
\n 1 │ first line\
\n 2 │ second line\
\n   · ───┬──\
\n   ·    ╰── here\
\n   ╰────\
\n  help: try again\n";
    assert_eq!(d.render().unwrap(), expected);
}

#[test]
fn any_range_inside_the_text_is_drawn() {
    let texts = ["", "\n", "a\tb\n", "héllo wörld\nünï ✔ line\n", "x = 1\r\ny = 2\r\n", "日本語\n二行目"];
    for text in texts {
        for start in 0..=text.len() {
            for end in start..=text.len() {
                let d = Diagnostic {
                    message: "m".to_string(),
                    code: "c".to_string(),
                    help: None,
                    src: NamedSource::new("n", text),
                    labels: vec![
                        Label { text: "first".to_string(), span: SourceSpan::new(start, end) },
                        Label { text: "second".to_string(), span: SourceSpan::new(0, start) },
                    ],
                };
                assert!(d.is_well_placed());
                let report = d.render().unwrap();
                assert!(report.starts_with("c\n\n  × m\n"));
            }
        }
    }
}
