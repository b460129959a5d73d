use pep440_rs::{Operator, Version, VersionSpecifier, VersionSpecifiers};
use venvcfg::config::{Config, Step};
use venvcfg::package::{Package, PackageFields};
use venvcfg::value::{ConfigError, ErrorKind, Expected, Segment, Value};

fn s(x: &str) -> Value {
    Value::Str(x.to_owned())
}

fn table(entries: Vec<(&str, Value)>) -> Value {
    Value::Table(entries.into_iter().map(|(k, v)| (k.to_owned(), v)).collect())
}

fn arr(items: Vec<Value>) -> Value {
    Value::Array(items)
}

fn spec(op: Operator, release: &[u64]) -> String {
    [VersionSpecifier::from_version(op, Version::new(release.iter().copied())).unwrap()]
        .into_iter()
        .collect::<VersionSpecifiers>()
        .to_string()
}

fn index(version: Option<String>) -> Package {
    Package::Index { version }
}

fn key(k: &str) -> Segment {
    Segment::Key(k.to_owned())
}

fn err_kind(r: Result<Config, ConfigError>) -> (Vec<Segment>, ErrorKind) {
    let e = r.unwrap_err();
    (e.path, e.kind)
}

#[test]
fn test_deserialize() {
    let doc = table(vec![
        ("python", s("3.12")),
        (
            "steps",
            arr(vec![
                table(vec![("packages", table(vec![("a", table(vec![]))]))]),
                table(vec![
                    ("index_url", s("https://example.org/alpha/simple")),
                    ("packages", table(vec![("b", s(">=2.0")), ("c", s("==3.0"))])),
                ]),
                table(vec![
                    ("extra_index_urls", arr(vec![s("https://example.org/beta/simple")])),
                    ("packages", table(vec![("d", table(vec![("version", s("<4.0"))]))])),
                ]),
            ]),
        ),
        ("index_url", s("https://example.org/gamma/simple")),
        ("extra_index_urls", arr(vec![s("https://example.org/delta/simple")])),
        (
            "packages",
            table(vec![
                ("e", table(vec![("path", s("path/to/e"))])),
                ("f", table(vec![("path", s("path/to/f")), ("editable", Value::Bool(true))])),
            ]),
        ),
    ]);
    let config = Config::deserialize(&doc).unwrap();

    assert_eq!(
        &config,
        &Config {
            python: "3.12".to_owned(),
            steps: vec![
                Step {
                    index_url: None,
                    extra_index_urls: Vec::new(),
                    packages: vec![("a".to_owned(), index(None))],
                },
                Step {
                    index_url: Some("https://example.org/alpha/simple".to_owned()),
                    extra_index_urls: Vec::new(),
                    packages: vec![
                        ("b".to_owned(), index(Some(spec(Operator::GreaterThanEqual, &[2, 0])))),
                        ("c".to_owned(), index(Some(spec(Operator::Equal, &[3, 0])))),
                    ],
                },
                Step {
                    index_url: None,
                    extra_index_urls: vec!["https://example.org/beta/simple".to_owned()],
                    packages: vec![("d".to_owned(), index(Some(spec(Operator::LessThan, &[4, 0]))))],
                },
                Step {
                    index_url: Some("https://example.org/gamma/simple".to_owned()),
                    extra_index_urls: vec!["https://example.org/delta/simple".to_owned()],
                    packages: vec![
                        (
                            "e".to_owned(),
                            Package::Path { path: "path/to/e".to_owned(), editable: false },
                        ),
                        (
                            "f".to_owned(),
                            Package::Path { path: "path/to/f".to_owned(), editable: true },
                        ),
                    ],
                },
            ],
        },
    );
}

#[test]
fn steps_then_legacy_step() {
    let doc = table(vec![
        ("python", s("3.12")),
        ("steps", arr(vec![table(vec![("packages", table(vec![("a", table(vec![]))]))])])),
        ("packages", table(vec![("b", s(">=2.0"))])),
    ]);
    let config = Config::deserialize(&doc).unwrap();
    assert_eq!(
        config,
        Config {
            python: "3.12".to_owned(),
            steps: vec![
                Step {
                    index_url: None,
                    extra_index_urls: Vec::new(),
                    packages: vec![("a".to_owned(), index(None))],
                },
                Step {
                    index_url: None,
                    extra_index_urls: Vec::new(),
                    packages: vec![("b".to_owned(), index(Some(spec(Operator::GreaterThanEqual, &[2, 0]))))],
                },
            ],
        }
    );
}

#[test]
fn empty_legacy_packages_gives_no_steps() {
    let doc = table(vec![("python", s("3.12")), ("packages", table(vec![]))]);
    let config = Config::deserialize(&doc).unwrap();
    assert_eq!(config, Config { python: "3.12".to_owned(), steps: Vec::new() });
}

#[test]
fn legacy_index_fields_without_packages_are_dropped() {
    let doc = table(vec![
        ("python", s("3.11")),
        ("steps", arr(vec![table(vec![]), table(vec![("index_url", s("https://a"))])])),
        ("index_url", s("https://example.org/gamma/simple")),
        ("extra_index_urls", arr(vec![s("https://example.org/delta/simple")])),
    ]);
    let config = Config::deserialize(&doc).unwrap();
    assert_eq!(config.steps.len(), 2);
    assert_eq!(config.steps[1].index_url, Some("https://a".to_owned()));
    assert!(config.steps[0].packages.is_empty());
}

#[test]
fn legacy_step_comes_after_every_explicit_step() {
    let step = |n: &str| table(vec![("packages", table(vec![(n, s("==1"))]))]);
    let doc = table(vec![
        ("python", s("3.12")),
        ("steps", arr(vec![step("a"), step("b"), step("c")])),
        ("index_url", s("https://legacy")),
        ("packages", table(vec![("z", table(vec![]))])),
    ]);
    let config = Config::deserialize(&doc).unwrap();
    assert_eq!(config.steps.len(), 4);
    assert_eq!(config.steps[0].packages[0].0, "a");
    assert_eq!(config.steps[2].packages[0].0, "c");
    assert_eq!(config.steps[3].index_url, Some("https://legacy".to_owned()));
    assert_eq!(config.steps[3].packages, vec![("z".to_owned(), index(None))]);
}

#[test]
fn parsing_twice_gives_equal_configs() {
    let doc = || {
        table(vec![
            ("python", s("3.10")),
            ("packages", table(vec![("x", s("~=1.4")), ("y", table(vec![("path", s("../y"))]))])),
        ])
    };
    assert_eq!(Config::deserialize(&doc()), Config::deserialize(&doc()));
}

#[test]
fn shorthand_matches_version_table() {
    for expr in [">=2.0", "==1.0.*", "<3,>1", "not a version"] {
        assert_eq!(
            Package::deserialize(&s(expr)),
            Package::deserialize(&table(vec![("version", s(expr))]))
        );
    }
}

#[test]
fn path_with_editable() {
    let p = Package::deserialize(&table(vec![("path", s("x")), ("editable", Value::Bool(true))]));
    assert_eq!(p, Ok(Package::Path { path: "x".to_owned(), editable: true }));
}

#[test]
fn path_defaults_to_not_editable() {
    let p = Package::deserialize(&table(vec![("path", s("x"))]));
    assert_eq!(p, Ok(Package::Path { path: "x".to_owned(), editable: false }));
}

#[test]
fn version_with_path_is_refused() {
    let p = Package::deserialize(&table(vec![("version", s("v")), ("path", s("x"))]));
    assert_eq!(p.unwrap_err().kind, ErrorKind::InvalidCombination);
}

#[test]
fn editable_without_path_is_refused() {
    let p = Package::deserialize(&table(vec![("editable", Value::Bool(true))]));
    assert_eq!(p.unwrap_err().kind, ErrorKind::InvalidCombination);
}

#[test]
fn empty_table_is_unconstrained_index() {
    assert_eq!(Package::deserialize(&table(vec![])), Ok(index(None)));
}

#[test]
fn from_fields_table() {
    let f = |v: Option<&str>, p: Option<&str>, e: Option<bool>| {
        Package::from_fields(PackageFields {
            version: v.map(str::to_owned),
            path: p.map(str::to_owned),
            editable: e,
        })
    };
    assert_eq!(f(None, None, None), Ok(index(None)));
    assert_eq!(f(Some(">=1"), None, None), Ok(index(Some(">=1".to_owned()))));
    assert_eq!(f(None, Some("p"), Some(false)), Ok(Package::Path { path: "p".to_owned(), editable: false }));
    assert_eq!(f(Some(">=1"), Some("p"), None).unwrap_err().kind, ErrorKind::InvalidCombination);
    assert_eq!(f(None, None, Some(false)).unwrap_err().kind, ErrorKind::InvalidCombination);
    assert_eq!(f(Some(">=1"), None, Some(true)).unwrap_err().kind, ErrorKind::InvalidCombination);
}

#[test]
fn version_is_stored_in_canonical_form() {
    let p = Package::deserialize(&s(">= 2.0")).unwrap();
    assert_eq!(p, index(Some(">=2.0".to_owned())));
}

#[test]
fn from_parsed_version_cases() {
    assert_eq!(
        Package::from_parsed_version("a".to_owned(), Ok("==1".to_owned())),
        Ok(index(Some("==1".to_owned())))
    );
    let e = Package::from_parsed_version("a".to_owned(), Err("bad".to_owned())).unwrap_err();
    assert!(e.path.is_empty());
    assert_eq!(e.kind, ErrorKind::InvalidVersion { specifier: "a".to_owned(), reason: "bad".to_owned() });
}

#[test]
fn invalid_version_names_package_and_text() {
    let doc = table(vec![("python", s("3.12")), ("packages", table(vec![("b", s(">=>2"))]))]);
    let (path, kind) = err_kind(Config::deserialize(&doc));
    assert_eq!(path, vec![key("packages"), key("b")]);
    match kind {
        ErrorKind::InvalidVersion { specifier, .. } => assert_eq!(specifier, ">=>2"),
        other => panic!("unexpected error {other:?}"),
    }
}

#[test]
fn missing_python() {
    let (path, kind) = err_kind(Config::deserialize(&table(vec![("steps", arr(vec![]))])));
    assert_eq!(path, vec![key("python")]);
    assert_eq!(kind, ErrorKind::MissingField);
}

#[test]
fn python_must_be_a_string() {
    let (path, kind) = err_kind(Config::deserialize(&table(vec![("python", Value::Integer(3))])));
    assert_eq!(path, vec![key("python")]);
    assert_eq!(kind, ErrorKind::TypeMismatch(Expected::Str));
}

#[test]
fn document_must_be_a_table() {
    let (path, kind) = err_kind(Config::deserialize(&s("python")));
    assert!(path.is_empty());
    assert_eq!(kind, ErrorKind::TypeMismatch(Expected::Table));
}

#[test]
fn editable_must_be_a_bool() {
    let doc = table(vec![
        ("python", s("3.12")),
        (
            "steps",
            arr(vec![
                table(vec![]),
                table(vec![("packages", table(vec![("p", table(vec![("path", s("p")), ("editable", s("yes"))]))]))]),
            ]),
        ),
    ]);
    let (path, kind) = err_kind(Config::deserialize(&doc));
    assert_eq!(path, vec![key("steps"), Segment::Index(1), key("packages"), key("p"), key("editable")]);
    assert_eq!(kind, ErrorKind::TypeMismatch(Expected::Bool));
}

#[test]
fn unknown_package_field() {
    let doc = table(vec![
        ("python", s("3.12")),
        ("packages", table(vec![("p", table(vec![("path", s("p")), ("develop", Value::Bool(true))]))])),
    ]);
    let (path, kind) = err_kind(Config::deserialize(&doc));
    assert_eq!(path, vec![key("packages"), key("p"), key("develop")]);
    assert_eq!(kind, ErrorKind::UnknownField);
}

#[test]
fn unknown_top_level_field_is_ignored() {
    let doc = table(vec![("python", s("3.12")), ("name", s("demo")), ("strict", Value::Other)]);
    assert_eq!(Config::deserialize(&doc), Ok(Config { python: "3.12".to_owned(), steps: Vec::new() }));
}

#[test]
fn duplicate_key_is_refused() {
    let doc = table(vec![("python", s("3.12")), ("packages", table(vec![("a", s("==1")), ("a", s("==2"))]))]);
    let (path, kind) = err_kind(Config::deserialize(&doc));
    assert_eq!(path, vec![key("packages"), key("a")]);
    assert_eq!(kind, ErrorKind::DuplicateKey);
}

#[test]
fn steps_must_be_an_array() {
    let doc = table(vec![("python", s("3.12")), ("steps", table(vec![]))]);
    let (path, kind) = err_kind(Config::deserialize(&doc));
    assert_eq!(path, vec![key("steps")]);
    assert_eq!(kind, ErrorKind::TypeMismatch(Expected::Array));
}

#[test]
fn step_must_be_a_table() {
    let doc = table(vec![("python", s("3.12")), ("steps", arr(vec![s("x")]))]);
    let (path, kind) = err_kind(Config::deserialize(&doc));
    assert_eq!(path, vec![key("steps"), Segment::Index(0)]);
    assert_eq!(kind, ErrorKind::TypeMismatch(Expected::Table));
}

#[test]
fn extra_index_urls_must_hold_strings() {
    let doc = table(vec![
        ("python", s("3.12")),
        ("extra_index_urls", arr(vec![s("https://a"), Value::Bool(false)])),
    ]);
    let (path, kind) = err_kind(Config::deserialize(&doc));
    assert_eq!(path, vec![key("extra_index_urls"), Segment::Index(1)]);
    assert_eq!(kind, ErrorKind::TypeMismatch(Expected::Str));
}

#[test]
fn packages_must_be_a_table() {
    let doc = table(vec![("python", s("3.12")), ("packages", arr(vec![]))]);
    let (path, kind) = err_kind(Config::deserialize(&doc));
    assert_eq!(path, vec![key("packages")]);
    assert_eq!(kind, ErrorKind::TypeMismatch(Expected::Table));
}

#[test]
fn package_must_be_string_or_table() {
    let doc = table(vec![("python", s("3.12")), ("packages", table(vec![("n", Value::Integer(1))]))]);
    let (path, kind) = err_kind(Config::deserialize(&doc));
    assert_eq!(path, vec![key("packages"), key("n")]);
    assert_eq!(kind, ErrorKind::TypeMismatch(Expected::StrOrTable));
}
