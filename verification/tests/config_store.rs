use nimbox::config::{ApiKey, Config, StoreError};
use nimbox::providers::provider_setting;

fn key(name: &str, secret: &str, provider: Option<&str>) -> ApiKey {
    ApiKey { name: name.to_string(), key: secret.to_string(), provider: provider.map(|p| p.to_string()) }
}

fn legacy_nim() -> Config {
    Config {
        provider: "nvidia-nim".to_string(),
        model: Some("nim-chat".to_string()),
        embedding: Some("nim-embed".to_string()),
        models: vec![],
        embeddings: vec![],
        keys: vec![key("default", "secret", None)],
    }
}

fn entry(pairs: &[(String, String)], provider: &str) -> Option<String> {
    pairs.iter().find(|(p, _)| p == provider).map(|(_, v)| v.clone())
}

#[test]
fn new_install_defaults_to_keyless_ollama() {
    assert_eq!(Config::default().provider, "ollama");
}

#[test]
fn switching_provider_migrates_legacy_models_and_keys() {
    let mut config = legacy_nim();
    config.set("provider", "ollama".into()).unwrap();

    assert_eq!(entry(&config.models, "nvidia-nim").unwrap(), "nim-chat");
    assert_eq!(entry(&config.embeddings, "nvidia-nim").unwrap(), "nim-embed");
    assert_eq!(config.keys[0].provider.as_deref(), Some("nvidia-nim"));
    assert_eq!(config.get("model").unwrap(), None);
}

#[test]
fn legacy_models_are_read_until_scoped() {
    let config = legacy_nim();
    assert_eq!(config.get("model").unwrap(), Some("nim-chat".to_string()));
    assert_eq!(config.get("embedding").unwrap(), Some("nim-embed".to_string()));
    assert_eq!(config.get("provider").unwrap(), Some("nvidia-nim".to_string()));
}

#[test]
fn setting_is_read_back() {
    let mut config = Config::default();
    config.set("model", "gemma3".into()).unwrap();
    config.set("embedding", "embeddinggemma".into()).unwrap();
    assert_eq!(config.get("model").unwrap(), Some("gemma3".to_string()));
    assert_eq!(config.get("embedding").unwrap(), Some("embeddinggemma".to_string()));
    config.set("model", "qwen".into()).unwrap();
    assert_eq!(config.get("model").unwrap(), Some("qwen".to_string()));
    assert_eq!(config.models.len(), 1);
}

#[test]
fn unknown_setting_is_refused() {
    let mut config = Config::default();
    assert_eq!(config.get("colour"), Err(StoreError::UnknownKey));
    assert_eq!(config.set("colour", "blue".into()), Err(StoreError::UnknownKey));
    assert_eq!(config.provider, "ollama");
}

#[test]
fn switching_back_restores_provider_settings() {
    let mut config = Config::default();
    config.set("model", "gemma3".into()).unwrap();
    config.add_key("ollama".into(), "local".into(), "k1".into());
    config.set("provider", "groq".into()).unwrap();
    assert_eq!(config.get("model").unwrap(), None);
    config.set("model", "llama".into()).unwrap();
    config.set("provider", "ollama".into()).unwrap();
    assert_eq!(config.get("model").unwrap(), Some("gemma3".to_string()));
    assert_eq!(config.provider_keys("ollama").len(), 1);
    assert_eq!(config.provider_keys("groq").len(), 0);
}

#[test]
fn keys_are_scoped_to_providers() {
    let mut config = Config::default();
    config.keys.push(key("old", "o", None));
    config.add_key("groq".into(), "primary".into(), "g1".into());
    config.add_key("openai".into(), "primary".into(), "o1".into());
    let groq = config.provider_keys("groq");
    assert_eq!(groq.len(), 2);
    assert_eq!(groq[0].name, "old");
    assert_eq!(groq[1].key, "g1");
    config.delete_key("groq", "primary");
    assert_eq!(config.provider_keys("groq").len(), 1);
    assert_eq!(config.provider_keys("openai").len(), 2);
    config.delete_all_keys("openai");
    assert_eq!(config.provider_keys("openai").len(), 0);
    assert_eq!(config.keys.len(), 0);
}

#[test]
fn switching_back_keeps_provider_keys() {
    let mut config = Config::default();
    config.set("provider", "groq".into()).unwrap();
    config.add_key("groq".into(), "first".into(), "g1".into());
    config.add_key("groq".into(), "second".into(), "g2".into());
    let before: Vec<(String, String)> = config.provider_keys("groq").into_iter().map(|k| (k.name, k.key)).collect();
    config.set("provider", "openai".into()).unwrap();
    config.add_key("openai".into(), "first".into(), "o1".into());
    config.set("provider", "groq".into()).unwrap();
    let after: Vec<(String, String)> = config.provider_keys("groq").into_iter().map(|k| (k.name, k.key)).collect();
    assert_eq!(before, after);
    assert_eq!(after, vec![("first".to_string(), "g1".to_string()), ("second".to_string(), "g2".to_string())]);
}

#[test]
fn provider_names_are_saved_canonically() {
    assert_eq!(provider_setting(Some("gemini".to_string())), Ok("ai-studio"));
    assert_eq!(provider_setting(Some("groq".to_string())), Ok("groq"));
    assert_eq!(provider_setting(None), Err("provider required".to_string()));
    assert_eq!(provider_setting(Some("acme".to_string())), Err("unsupported provider 'acme'".to_string()));
}
