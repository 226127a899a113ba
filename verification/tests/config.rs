use service_bootstrap::config::{resolve_keys, ConfigError, Env, ServiceVariant, Source};

fn source_of(pairs: &[(&str, &str)]) -> Source {
    let mut s = Source::new();
    for (k, v) in pairs {
        s.insert(k.to_string(), v.to_string());
    }
    s
}

fn keys_of(names: &[&str]) -> Vec<String> {
    names.iter().map(|n| n.to_string()).collect()
}

#[test]
fn source_lookup_finds_defined_keys() {
    let s = source_of(&[("SERVER", "0.0.0.0:8080"), ("DATABASE_URL", "postgres://db/x")]);
    assert_eq!(s.get(&"SERVER".to_string()), Some(&"0.0.0.0:8080".to_string()));
    assert_eq!(s.get(&"DATABASE_URL".to_string()), Some(&"postgres://db/x".to_string()));
    assert_eq!(s.get(&"KAFKA_BROKER".to_string()), None);
}

#[test]
fn source_later_definition_wins() {
    let s = source_of(&[("SERVER", "first"), ("SERVER", "second")]);
    assert_eq!(s.get(&"SERVER".to_string()), Some(&"second".to_string()));
}

#[test]
fn list_of_variables_gives_catalog_keys_unset() {
    let ws = Env::list_of_variables(ServiceVariant::Catalog);
    let names: Vec<&str> = ws.iter().map(|e| e.0.as_str()).collect();
    assert_eq!(names, vec!["SERVER", "DATABASE_URL", "KAFKA_GROUP_ID", "KAFKA_BROKER"]);
    assert!(ws.iter().all(|e| e.1.is_none()));
}

#[test]
fn list_of_variables_gives_auth_keys_unset() {
    let ws = Env::list_of_variables(ServiceVariant::Auth);
    let names: Vec<&str> = ws.iter().map(|e| e.0.as_str()).collect();
    assert_eq!(names, vec!["AUTH_SERVER", "AUTH_DATABASE_URL", "KAFKA_GROUP_ID", "KAFKA_BROKER"]);
    assert!(ws.iter().all(|e| e.1.is_none()));
}

#[test]
fn not_all_variables_exist_reports_any_unset() {
    let mut ws = Env::list_of_variables(ServiceVariant::Catalog);
    assert!(Env::not_all_variables_exist(&ws));
    for e in ws.iter_mut() {
        e.1 = Some("x".to_string());
    }
    assert!(!Env::not_all_variables_exist(&ws));
    ws[2].1 = None;
    assert!(Env::not_all_variables_exist(&ws));
}

#[test]
fn read_all_variables_fills_only_unset_entries() {
    let mut ws = vec![
        ("A".to_string(), Some("kept".to_string())),
        ("B".to_string(), None),
        ("C".to_string(), None),
    ];
    let src = source_of(&[("A", "overwritten?"), ("B", "filled")]);
    Env::read_all_variables(&mut ws, &src);
    assert_eq!(ws[0].1, Some("kept".to_string()));
    assert_eq!(ws[1].1, Some("filled".to_string()));
    assert_eq!(ws[2].1, None);
}

#[test]
fn all_keys_in_primary_resolve_to_primary_values() {
    // The secondary source defines different values; they are never used.
    let keys = keys_of(&["SERVER", "DATABASE_URL"]);
    let primary = source_of(&[("SERVER", "0.0.0.0:8080"), ("DATABASE_URL", "postgres://db/x")]);
    let secondary = source_of(&[("SERVER", "1.1.1.1:9"), ("DATABASE_URL", "other")]);
    let cfg = resolve_keys(&keys, &primary, Some(&secondary)).ok().unwrap();
    assert_eq!(cfg.len(), 2);
    assert_eq!(cfg.key_at(0).as_str(), "SERVER");
    assert_eq!(cfg.value_at(0).as_str(), "0.0.0.0:8080");
    assert_eq!(cfg.key_at(1).as_str(), "DATABASE_URL");
    assert_eq!(cfg.value_at(1).as_str(), "postgres://db/x");
}

#[test]
fn secondary_completes_and_primary_takes_precedence() {
    let keys = keys_of(&["SERVER", "DATABASE_URL", "KAFKA_BROKER"]);
    let primary = source_of(&[("SERVER", "0.0.0.0:8080")]);
    let secondary = source_of(&[
        ("SERVER", "shadowed"),
        ("DATABASE_URL", "postgres://db/x"),
        ("KAFKA_BROKER", "broker:9092"),
    ]);
    let cfg = resolve_keys(&keys, &primary, Some(&secondary)).ok().unwrap();
    assert_eq!(cfg.value_at(0).as_str(), "0.0.0.0:8080");
    assert_eq!(cfg.value_at(1).as_str(), "postgres://db/x");
    assert_eq!(cfg.value_at(2).as_str(), "broker:9092");
}

#[test]
fn missing_key_report_is_exact() {
    let keys = keys_of(&["A", "B", "C", "D"]);
    let primary = source_of(&[("B", "x")]);
    let secondary = source_of(&[("D", "y")]);
    match resolve_keys(&keys, &primary, Some(&secondary)) {
        Err(ConfigError::MissingRequiredKeys(m)) => {
            assert_eq!(m, vec!["A".to_string(), "C".to_string()]);
        }
        _ => panic!("expected the missing-key error"),
    }
}

#[test]
fn empty_string_value_counts_as_present() {
    let keys = keys_of(&["A"]);
    let primary = source_of(&[("A", "")]);
    let cfg = resolve_keys(&keys, &primary, None).ok().unwrap();
    assert_eq!(cfg.value_at(0).as_str(), "");
}

#[test]
fn unavailable_secondary_with_partial_primary_fails() {
    // Primary defines only the server address; the fallback file is absent.
    let keys = keys_of(&["SERVER", "DATABASE_URL"]);
    let primary = source_of(&[("SERVER", "0.0.0.0:8080")]);
    match resolve_keys(&keys, &primary, None) {
        Err(ConfigError::SourceUnavailable) => {}
        _ => panic!("expected the source-unavailable error"),
    }
}

#[test]
fn unavailable_secondary_is_fatal_even_for_one_missing_key() {
    // Necessity is "any key missing", not "this specific key missing":
    // three of four keys are set, yet resolution still fails.
    let keys = keys_of(&["A", "B", "C", "D"]);
    let primary = source_of(&[("A", "1"), ("B", "2"), ("C", "3")]);
    match resolve_keys(&keys, &primary, None) {
        Err(ConfigError::SourceUnavailable) => {}
        _ => panic!("expected the source-unavailable error"),
    }
}

#[test]
fn complete_primary_succeeds_without_secondary() {
    let primary = source_of(&[
        ("SERVER", "0.0.0.0:8080"),
        ("DATABASE_URL", "postgres://db/x"),
        ("KAFKA_GROUP_ID", "g1"),
        ("KAFKA_BROKER", "broker:9092"),
    ]);
    let env = Env::resolve(ServiceVariant::Catalog, &primary, None).ok().unwrap();
    assert_eq!(env.server_address, "0.0.0.0:8080");
    assert_eq!(env.db_connection_string, "postgres://db/x");
    assert_eq!(env.kafka_group_id, "g1");
    assert_eq!(env.kafka_broker, "broker:9092");
}

#[test]
fn auth_variant_reads_its_own_key_names() {
    let primary = source_of(&[
        ("AUTH_SERVER", "127.0.0.1:3000"),
        ("AUTH_DATABASE_URL", "postgres://db/auth"),
        ("KAFKA_GROUP_ID", "auth-group"),
        ("KAFKA_BROKER", "broker:9092"),
    ]);
    let env = Env::resolve(ServiceVariant::Auth, &primary, None).ok().unwrap();
    assert_eq!(env.server_address, "127.0.0.1:3000");
    assert_eq!(env.db_connection_string, "postgres://db/auth");
    assert_eq!(env.kafka_group_id, "auth-group");
    assert_eq!(env.kafka_broker, "broker:9092");
}

#[test]
fn env_resolution_reports_its_missing_keys() {
    let primary = source_of(&[("SERVER", "0.0.0.0:8080")]);
    let secondary = source_of(&[("DATABASE_URL", "postgres://db/x")]);
    match Env::resolve(ServiceVariant::Catalog, &primary, Some(&secondary)) {
        Err(ConfigError::MissingRequiredKeys(m)) => {
            assert_eq!(m, vec!["KAFKA_GROUP_ID".to_string(), "KAFKA_BROKER".to_string()]);
        }
        _ => panic!("expected the missing-key error"),
    }
}
