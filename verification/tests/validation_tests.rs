use lattice_cli::validation::{validation_report, ChainFacts, ProfileFacts};

fn profile(name: &str, model_error: Option<&str>, rules: Vec<Vec<&str>>, fallback: Vec<&str>) -> ProfileFacts {
    ProfileFacts {
        name: name.into(),
        model: "sonnet".into(),
        model_error: model_error.map(|e| e.to_string()),
        rule_targets: rules.into_iter().map(|r| r.into_iter().map(|s| s.to_string()).collect()).collect(),
        fallback: fallback.into_iter().map(|s| s.to_string()).collect(),
    }
}

#[test]
fn validation_reports_unknown_targets_duplicates_and_cycles() {
    let profiles = vec![
        profile("a", None, vec![vec![], vec!["b", "ghost"]], vec!["nobody"]),
        profile("b", Some("unknown model"), vec![], vec![]),
        profile("a", None, vec![], vec![]),
    ];
    let registered = vec!["a".to_string(), "b".to_string()];
    let chains = vec![
        ChainFacts { agent: "a".into(), circular: true, issues: vec!["agent 'x' not found".into(), "slow".into()] },
        ChainFacts { agent: "b".into(), circular: false, issues: vec![] },
    ];
    let (lines, errors) = validation_report(&profiles, &registered, &chains);
    assert_eq!(
        lines,
        vec![
            "  [check] a",
            "    model: sonnet OK",
            "    rule[1]: target 'ghost' is not a registered agent",
            "    fallback: 'nobody' is not a registered agent",
            "  [check] b",
            "    model: sonnet — WARNING: unknown model",
            "  [check] a",
            "    ERROR: duplicate agent name 'a'",
            "    model: sonnet OK",
            "    ERROR: circular handoff detected starting from 'a'",
            "    ERROR: agent 'x' not found",
        ]
    );
    assert_eq!(errors, 5);
}

#[test]
fn valid_profiles_report_no_errors() {
    let (lines, errors) = validation_report(&vec![profile("solo", None, vec![vec!["solo"]], vec![])], &vec!["solo".to_string()], &vec![]);
    assert_eq!(lines.len(), 2);
    assert_eq!(errors, 0);
}
