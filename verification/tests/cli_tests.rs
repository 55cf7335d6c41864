use lattice_cli::coding::{authenticated_providers, coding_system_prompt, repo_context};
use lattice_cli::commands::{
    config_value_for_key, run_prompt_source, run_stream_flags, stream_output, validate_agents_dir,
    PromptSource,
};

fn args(v: &[&str]) -> Vec<String> {
    v.iter().map(|s| s.to_string()).collect()
}

#[test]
fn system_prompt_contains_workdir_and_coding_role() {
    let context = repo_context(Vec::new());
    let prompt = coding_system_prompt("/tmp/project", &context);

    assert!(prompt.contains("repo-aware coding agent"));
    assert!(prompt.contains("/tmp/project"));
}

#[test]
fn run_stream_flags_default_to_config_control() {
    let flags = run_stream_flags(&args(&["lattice", "run", "hello"]));

    assert!(!flags.stream);
    assert!(!flags.no_stream);
}

#[test]
fn run_no_stream_overrides_stream_flag() {
    let flags = run_stream_flags(&args(&["lattice", "run", "hello", "--stream", "--no-stream"]));

    assert!(!flags.stream);
    assert!(flags.no_stream);
}

#[test]
fn later_stream_flag_wins_again() {
    let flags = run_stream_flags(&args(&["lattice", "run", "hello", "--no-stream", "--stream"]));
    assert!(flags.stream);
    assert!(!flags.no_stream);
}

#[test]
fn load_run_prompt_rejects_prompt_and_file_together() {
    let err = match run_prompt_source(Some("inline".into()), Some("prompt.txt".into())) {
        Err(e) => e,
        Ok(_) => panic!("prompt and file should conflict"),
    };

    assert!(err.contains("either PROMPT or --file"));
}

#[test]
fn run_prompt_needs_a_source() {
    let err = match run_prompt_source(None, None) {
        Err(e) => e,
        Ok(_) => panic!("no source should fail"),
    };
    assert_eq!(err, "Missing prompt text or --file");
    match run_prompt_source(Some("hi".into()), None) {
        Ok(PromptSource::Inline(p)) => assert_eq!(p, "hi"),
        _ => panic!("inline prompt expected"),
    }
    match run_prompt_source(None, Some("p.txt".into())) {
        Ok(PromptSource::File(p)) => assert_eq!(p, "p.txt"),
        _ => panic!("file expected"),
    }
}

#[test]
fn boolean_config_values_are_typed() {
    let item = config_value_for_key("core.save_sessions", "false").unwrap();
    assert_eq!(item.as_bool(), Some(false));
}

#[test]
fn invalid_boolean_config_values_error() {
    let err = config_value_for_key("core.save_sessions", "nope").unwrap_err();
    assert!(err.contains("expects a boolean"));
}

#[test]
fn string_config_values_remain_strings() {
    let item = config_value_for_key("core.default_model", "sonnet").unwrap();
    assert_eq!(item.as_str(), Some("sonnet"));
}

#[test]
fn stream_output_follows_flags_then_config() {
    assert!(!stream_output(true, true, false, true));
    assert!(stream_output(false, true, false, false));
    assert!(!stream_output(false, false, true, true));
    assert!(stream_output(false, false, false, true));
    assert!(!stream_output(false, false, false, false));
}

#[test]
fn repo_context_sorts_filters_and_caps_entries() {
    let names = vec![
        "src".to_string(),
        ".git".to_string(),
        "Cargo.toml".to_string(),
        "target".to_string(),
        "node_modules".to_string(),
    ];
    assert_eq!(repo_context(names), "- Cargo.toml\n- src");
    assert_eq!(repo_context(Vec::new()), "- no readable top-level entries");
    let many: Vec<String> = (0..50).map(|i| format!("f{:02}", i)).collect();
    let text = repo_context(many);
    assert_eq!(text.lines().count(), 40);
    assert!(text.ends_with("- f39"));
}

#[test]
fn providers_come_from_model_ids_once_each() {
    let models = vec![
        "openai/gpt-4o".to_string(),
        "anthropic/sonnet".to_string(),
        "openai/gpt-4o-mini".to_string(),
        "local".to_string(),
    ];
    assert_eq!(authenticated_providers(&models), vec!["openai".to_string(), "anthropic".to_string()]);
}

#[test]
fn agents_dir_outside_system_paths_is_accepted() {
    assert!(validate_agents_dir("agents", "/home/me/project/agents").is_ok());
    let err = validate_agents_dir("/etc/agents", "/etc/agents").unwrap_err();
    assert!(err.contains("/etc"));
}
