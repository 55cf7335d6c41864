use lattice_cli::config::{Config, ProviderConfig};

fn settings(key: Option<&str>) -> ProviderConfig {
    ProviderConfig { api_key: key.map(str::to_string), base_url: None }
}

#[test]
fn setting_a_provider_again_replaces_its_entry() {
    let mut c = Config::defaults_at("c.toml".into());
    assert!(c.providers.is_empty());
    c.set_provider("openai".into(), settings(Some("k1")));
    c.set_provider("anthropic".into(), settings(None));
    c.set_provider("openai".into(), settings(Some("k2")));
    assert_eq!(c.providers.len(), 2);
    assert_eq!(c.providers[0].0, "openai");
    assert_eq!(c.providers[0].1.api_key.as_deref(), Some("k2"));
    assert_eq!(c.providers[1].0, "anthropic");
    assert_eq!(c.path, "c.toml");
}
