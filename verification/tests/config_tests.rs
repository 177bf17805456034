use vitest_linter::config::{
    matches_path, Config, ConfigError, RawBannedSingleton, RawConfig, RawDepsConfig,
    RawRulesConfig,
};

#[test]
fn empty_config_default_integration_glob() {
    let cfg = Config::default();
    assert!(cfg.deps.integration_test_glob.is_some());
    let g = cfg.deps.integration_test_glob.unwrap();
    assert!(g.is_match("foo/bar.integration.test.ts"));
    assert!(!g.is_match("foo/bar.test.ts"));
}

#[test]
fn parse_full_config() {
    let raw = RawConfig {
        deps: RawDepsConfig {
            banned_mock_paths: vec![
                "**/infrastructure/database".to_string(),
                "**/infrastructure/event-bus".to_string(),
            ],
            banned_singletons: vec![
                RawBannedSingleton {
                    from: "**/services/pipeline-orchestrator".to_string(),
                    names: vec!["orchestrator".to_string()],
                },
                RawBannedSingleton {
                    from: "**/services/progress-persistence".to_string(),
                    names: vec!["progressPersistence".to_string()],
                },
            ],
            integration_test_glob: Some("**/*.integration.test.ts".to_string()),
        },
        rules: RawRulesConfig { select: vec![] },
    };
    let cfg = Config::from_raw(raw).unwrap();
    assert_eq!(cfg.deps.banned_mock_paths.len(), 2);
    assert_eq!(cfg.deps.banned_singletons.len(), 2);
    assert!(matches_path(
        &cfg.deps.banned_mock_paths,
        "../infrastructure/database",
    ));
    assert!(matches_path(
        &cfg.deps.banned_mock_paths,
        "src/lib/infrastructure/event-bus",
    ));
    assert!(!matches_path(
        &cfg.deps.banned_mock_paths,
        "../infrastructure/audio",
    ));
}

#[test]
fn singleton_glob_match() {
    let raw = RawConfig {
        deps: RawDepsConfig {
            banned_mock_paths: vec![],
            banned_singletons: vec![RawBannedSingleton {
                from: "**/services/pipeline-orchestrator".to_string(),
                names: vec!["orchestrator".to_string()],
            }],
            integration_test_glob: None,
        },
        rules: RawRulesConfig { select: vec![] },
    };
    let cfg = Config::from_raw(raw).unwrap();
    let s = &cfg.deps.banned_singletons[0];
    // Glob requires `services/` segment present somewhere in the path.
    assert!(s
        .from
        .is_match("apps/platform/src/lib/server/services/pipeline-orchestrator"));
    assert!(!s.from.is_match("./pipeline-orchestrator"));
}

#[test]
fn invalid_glob_is_rejected_with_its_pattern() {
    let raw = RawConfig {
        deps: RawDepsConfig {
            banned_mock_paths: vec!["ok/**".to_string(), "a[".to_string()],
            banned_singletons: vec![],
            integration_test_glob: None,
        },
        rules: RawRulesConfig { select: vec![] },
    };
    match Config::from_raw(raw) {
        Err(ConfigError::InvalidGlob(p)) => assert_eq!(p, "a["),
        Ok(_) => panic!("expected an invalid glob"),
    }
}

#[test]
fn later_select_entry_wins_and_off_disables() {
    let raw = RawConfig {
        deps: RawDepsConfig::default(),
        rules: RawRulesConfig {
            select: vec![
                ("VITEST-FLK-001".to_string(), "warning".to_string()),
                ("VITEST-FLK-001".to_string(), "OFF".to_string()),
                ("VITEST-MNT-001".to_string(), "info".to_string()),
            ],
        },
    };
    let cfg = Config::from_raw(raw).unwrap();
    assert!(cfg.rules.is_disabled("VITEST-FLK-001"));
    assert!(!cfg.rules.is_disabled("VITEST-MNT-001"));
    assert_eq!(cfg.rules.severity_override("VITEST-MNT-001"), Some("info"));
    assert_eq!(cfg.rules.severity_override("VITEST-DEP-001"), None);
}

#[test]
fn deeply_nested_alternates_do_not_panic() {
    let pattern = format!("{}b{}", "{a,".repeat(300), "}".repeat(300));
    let r = vitest_linter::config::GlobPattern::new(&pattern);
    if let Ok(g) = r {
        assert_eq!(g.pattern(), pattern.as_str());
    }
}
