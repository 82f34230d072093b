use wasmer_support::split_version::{SplitVersion, SplitVersionError};

#[test]
fn test_split_version() {
    assert_eq!(
        SplitVersion::parse("registry.wapm.io/graphql/python/python").unwrap(),
        SplitVersion {
            original: "registry.wapm.io/graphql/python/python".to_string(),
            registry: Some("https://registry.wapm.io/graphql".to_string()),
            package: "python/python".to_string(),
            version: None,
            command: None,
        }
    );
    assert_eq!(
        SplitVersion::parse("registry.wapm.io/python/python").unwrap(),
        SplitVersion {
            original: "registry.wapm.io/python/python".to_string(),
            registry: Some("https://registry.wapm.io/graphql".to_string()),
            package: "python/python".to_string(),
            version: None,
            command: None,
        }
    );
    assert_eq!(
        SplitVersion::parse("namespace/name@version:command").unwrap(),
        SplitVersion {
            original: "namespace/name@version:command".to_string(),
            registry: None,
            package: "namespace/name".to_string(),
            version: Some("version".to_string()),
            command: Some("command".to_string()),
        }
    );
    assert_eq!(
        SplitVersion::parse("namespace/name@version").unwrap(),
        SplitVersion {
            original: "namespace/name@version".to_string(),
            registry: None,
            package: "namespace/name".to_string(),
            version: Some("version".to_string()),
            command: None,
        }
    );
    assert_eq!(
        SplitVersion::parse("namespace/name").unwrap(),
        SplitVersion {
            original: "namespace/name".to_string(),
            registry: None,
            package: "namespace/name".to_string(),
            version: None,
            command: None,
        }
    );
    assert_eq!(
        SplitVersion::parse("registry.wapm.io/namespace/name").unwrap(),
        SplitVersion {
            original: "registry.wapm.io/namespace/name".to_string(),
            registry: Some("https://registry.wapm.io/graphql".to_string()),
            package: "namespace/name".to_string(),
            version: None,
            command: None,
        }
    );
    assert_eq!(
        SplitVersion::parse("namespace").unwrap_err().to_string(),
        "Invalid package version: \"namespace\"".to_string(),
    );
}

#[test]
fn split_command_without_version() {
    let sv = SplitVersion::parse("namespace/name:command").unwrap();
    assert_eq!(sv.package, "namespace/name");
    assert_eq!(sv.version, None);
    assert_eq!(sv.command, Some("command".to_string()));
}

#[test]
fn split_keeps_an_explicit_scheme() {
    let sv = SplitVersion::parse("http://localhost:8080/graphql/ns/pkg@1.0").unwrap();
    assert_eq!(sv.registry, Some("http://localhost:8080/graphql".to_string()));
    assert_eq!(sv.package, "ns/pkg");
    assert_eq!(sv.version, Some("1.0".to_string()));
}

#[test]
fn split_appends_graphql_path() {
    let sv = SplitVersion::parse("example.com/ns/pkg").unwrap();
    assert_eq!(sv.registry, Some("https://example.com/graphql".to_string()));
    assert_eq!(sv.original, "example.com/ns/pkg");
}

#[test]
fn split_shows_latest_for_missing_version() {
    assert_eq!(SplitVersion::parse("ns/pkg").unwrap().to_string(), "ns/pkg@latest");
    assert_eq!(SplitVersion::parse("ns/pkg@1.2:run").unwrap().to_string(), "ns/pkg@1.2:run");
    assert_eq!(SplitVersion::parse("ns/pkg:run").unwrap().to_string(), "ns/pkg@latest:run");
}

#[test]
fn split_refuses_reserved_names() {
    let reserved = vec!["ns/run".to_string()];
    let err = SplitVersion::parse_reserving("ns/run", &reserved).unwrap_err();
    assert_eq!(err, SplitVersionError::InvalidName("ns/run".to_string()));
    assert_eq!(err.to_string(), "Invalid package name \"ns/run\"");
    // names without a slash never match a package
    let plain = vec!["run".to_string(), "login".to_string()];
    assert_eq!(
        SplitVersion::parse_reserving("ns/run", &plain).unwrap(),
        SplitVersion::parse("ns/run").unwrap()
    );
}

#[test]
fn split_reserved_names_compare_trimmed() {
    let reserved = vec!["ns/run".to_string()];
    let err = SplitVersion::parse_reserving(" ns/run ", &reserved).unwrap_err();
    assert_eq!(err, SplitVersionError::InvalidName(" ns/run ".to_string()));
}

#[test]
fn split_from_groups_reports_missing_parts() {
    let s = "whatever";
    let only_whole = vec![Some("whatever".to_string())];
    assert_eq!(
        SplitVersion::from_groups(s, &only_whole, false, &vec![]).unwrap_err(),
        SplitVersionError::NoNamespace("whatever".to_string())
    );
    let with_namespace = vec![Some("x/y".to_string()), Some("x".to_string()), None];
    let err = SplitVersion::from_groups(s, &with_namespace, false, &vec![]).unwrap_err();
    assert_eq!(err, SplitVersionError::NoName("whatever".to_string()));
    assert_eq!(err.to_string(), "Invalid package version: \"whatever\": no name");
    assert_eq!(
        SplitVersionError::NoNamespace("a".to_string()).to_string(),
        "Invalid package version: \"a\": no namespace"
    );
}

#[test]
fn split_from_groups_skips_absent_groups() {
    let groups = vec![
        Some("reg/ns/n@v".to_string()),
        Some("reg/ns".to_string()),
        None,
        Some("n".to_string()),
        Some("v".to_string()),
    ];
    let sv = SplitVersion::from_groups("reg/ns/n@v", &groups, false, &vec![]).unwrap();
    assert_eq!(sv.registry, Some("https://reg/graphql".to_string()));
    assert_eq!(sv.package, "ns/n");
    assert_eq!(sv.version, Some("v".to_string()));
    assert_eq!(sv.command, None);
}

#[test]
fn split_from_str_agrees_with_parse() {
    let a: SplitVersion = "ns/pkg@2".parse().unwrap();
    assert_eq!(a, SplitVersion::parse("ns/pkg@2").unwrap());
    assert_eq!(SplitVersion::default().package, "");
}

#[test]
fn split_shown_text_splits_back() {
    let sv = SplitVersion::parse("ns/pkg@1.0:run").unwrap();
    let again = SplitVersion::parse(&sv.to_string()).unwrap();
    assert_eq!(again.package, sv.package);
    assert_eq!(again.version, sv.version);
    assert_eq!(again.command, sv.command);
    let bare = SplitVersion::parse("ns/pkg").unwrap();
    let again = SplitVersion::parse(&bare.to_string()).unwrap();
    assert_eq!(again.package, "ns/pkg");
    assert_eq!(again.version, Some("latest".to_string()));
    assert_eq!(again.command, None);
}
