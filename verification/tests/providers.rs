use provider_failover::presets::{preset_for, presets};
use provider_failover::providers::{
    build_failover_chain, layer_provider, Config, ConfigModelOverride, FailoverConfig,
};
use provider_failover::sampler_config::{ApiBackend, AuthScheme, SamplerConfig};
use provider_failover::string_map::StringMap;

fn cfg_from(toml_src: &str) -> Config {
    let doc = toml_src.parse::<toml_edit::DocumentMut>().unwrap();
    let order = doc["failover"]["order"]
        .as_array()
        .unwrap()
        .iter()
        .map(|v| v.as_str().unwrap().to_string())
        .collect();
    let mut config_models = StringMap::new();
    for (name, section) in doc["model"].as_table().unwrap().iter() {
        let text = |key: &str| section.get(key).and_then(|v| v.as_str()).map(str::to_string);
        config_models.insert(
            name.to_string(),
            ConfigModelOverride {
                base_url: text("base_url"),
                api_key: text("api_key"),
                model: text("model"),
                keyless: section.get("keyless").and_then(|v| v.as_bool()).unwrap_or(false),
            },
        );
    }
    Config { failover: FailoverConfig { order }, config_models }
}

/// What the configured sections resolve to by themselves.
fn resolve(cfg: &Config, names: &[&str]) -> StringMap<SamplerConfig> {
    let mut resolved = StringMap::new();
    for name in names {
        let model = cfg.config_models.get(name).unwrap();
        resolved.insert(
            name.to_string(),
            SamplerConfig {
                base_url: model.base_url.clone().unwrap_or_default(),
                model: model.model.clone().unwrap_or_else(|| name.to_string()),
                api_key: model.api_key.clone(),
                keyless: model.keyless,
                ..Default::default()
            },
        );
    }
    resolved
}

#[test]
fn all_spec_providers_present_with_exact_urls() {
    let want = [
        ("Anthropic", "https://api.anthropic.com/v1"),
        ("OpenAI", "https://api.openai.com/v1"),
        ("Gemini", "https://generativelanguage.googleapis.com"),
        ("NVIDIA", "https://integrate.api.nvidia.com/v1"),
        ("Ollama (local)", "http://localhost:11434/v1"),
        ("GitHub Copilot", "https://api.githubcopilot.com"),
        ("OpenRouter", "https://openrouter.ai/api/v1"),
        ("DeepSeek", "https://api.deepseek.com/v1"),
        ("Cerebras", "https://api.cerebras.ai/v1"),
        ("GLM Coding", "https://api.z.ai/api/coding/paas/v4/"),
        ("Custom (OpenAI-compatible)", ""),
    ];
    let all = presets();
    for (label, url) in want {
        let p = all
            .iter()
            .find(|p| p.label == label)
            .unwrap_or_else(|| panic!("preset {label} missing"));
        assert_eq!(p.base_url, url);
    }
    assert!(all.iter().find(|p| p.label == "Ollama (local)").unwrap().keyless);
    assert!(all.iter().find(|p| p.label == "GitHub Copilot").unwrap().needs_dynamic_id);
    assert_eq!(
        all.iter().find(|p| p.label == "Gemini").unwrap().api_backend,
        ApiBackend::Gemini
    );
    assert_eq!(
        all.iter().find(|p| p.label == "Anthropic").unwrap().auth_scheme,
        AuthScheme::XApiKey
    );
}

#[test]
fn every_preset_suggests_its_model() {
    let all = presets();
    let suggested: Vec<(&str, &str)> =
        all.iter().map(|p| (p.short_key, p.suggested_model)).collect();
    assert_eq!(
        suggested,
        [
            ("anthropic", "sonnet-4-5"),
            ("openai", "gpt-5"),
            ("gemini", "gemini-2.5-pro"),
            ("nvidia", "meta/llama-3.3-70b-instruct"),
            ("ollama-local", "llama3.1"),
            ("copilot", "gpt-4o"),
            ("openrouter", "openai/gpt-4o"),
            ("deepseek", "deepseek-chat"),
            ("cerebras", "llama3.1-8b"),
            ("glm", "glm-4.6"),
            ("custom", "custom-model"),
        ]
    );
}

#[test]
fn every_preset_is_found_under_its_key_in_any_case() {
    for p in presets() {
        let found = preset_for(&p.short_key.to_uppercase()).unwrap();
        assert_eq!(found.label, p.label);
    }
    assert!(preset_for("ghost").is_none());
    assert!(preset_for("").is_none());
}

#[test]
fn chain_builder_skips_keyless_unmarked_entries_and_warns() {
    let cfg = cfg_from(
        "[failover]\n\
         order = [\"ollama-local\", \"openai\", \"ghost\"]\n\n\
         [model.ollama-local]\n\
         base_url = \"http://localhost:11434/v1\"\n\
         api_backend = \"chat_completions\"\n\
         keyless = true\n\
         [model.openai]\n\
         base_url = \"https://api.openai.com/v1\"\n\
         api_key = \"sk-test\"\n\
         model = \"gpt-5\"\n",
    );
    let resolved = resolve(&cfg, &["ollama-local", "openai"]);
    let (chain, warnings) = build_failover_chain(&cfg, &resolved);
    assert_eq!(chain.len(), 2, "'openai' has key, 'ollama-local' is keyless-marked");
    assert_eq!(chain[0].0, "ollama-local");
    assert_eq!(chain[0].1.api_backend, ApiBackend::ChatCompletions);
    assert_eq!(chain[0].1.base_url, "http://localhost:11434/v1");
    assert!(chain[1].1.api_key.as_deref().unwrap().starts_with("sk-test"));
    assert!(warnings.iter().any(|w| w.contains("ghost")));
    assert_eq!(
        warnings,
        ["ghost: skipped, no [model.ghost] entry and no built-in match"]
    );
}

#[test]
fn chain_builder_layers_preset_identity_and_copilot_injector() {
    let cfg = cfg_from(
        "[failover]\n\
         order = [\"copilot\", \"openrouter\"]\n\n\
         [model.copilot]\n\
         api_key = \"gh-copilot-token\"\n\
         model = \"gpt-4o\"\n\
         [model.openrouter]\n\
         api_key = \"sk-or\"\n\
         model = \"openai/gpt-4o\"\n",
    );
    let resolved = resolve(&cfg, &["copilot", "openrouter"]);
    let (chain, warnings) = build_failover_chain(&cfg, &resolved);
    assert!(warnings.is_empty(), "{warnings:?}");
    assert_eq!(chain.len(), 2);

    let copilot = &chain[0].1;
    assert_eq!(copilot.base_url, "https://api.githubcopilot.com");
    assert!(copilot.header_injector.is_some(), "dynamic X-Request-Id");

    let openrouter = &chain[1].1;
    assert_eq!(openrouter.base_url, "https://openrouter.ai/api/v1");
    assert!(openrouter
        .extra_headers
        .iter()
        .any(|(k, v)| k == "HTTP-Referer" && v == "https://github.com/"));
    assert!(openrouter.header_injector.is_none());
}

#[test]
fn chain_builder_respects_user_base_url_over_preset() {
    let cfg = cfg_from(
        "[failover]\n\
         order = [\"openai\"]\n\n\
         [model.openai]\n\
         base_url = \"https://my-proxy.internal/v1\"\n\
         api_key = \"sk-test\"\n\
         model = \"gpt-5\"\n",
    );
    let resolved = resolve(&cfg, &["openai"]);
    let (chain, warnings) = build_failover_chain(&cfg, &resolved);
    assert!(warnings.is_empty());
    assert_eq!(chain[0].1.base_url, "https://my-proxy.internal/v1");
    assert_eq!(chain[0].1.api_backend, ApiBackend::ChatCompletions);
}

#[test]
fn chain_builder_leaves_out_a_provider_without_a_key() {
    let cfg = cfg_from(
        "[failover]\norder = [\"b\", \"openai\", \"a\"]\n\
         [model.a]\napi_key = \"k\"\n[model.openai]\nmodel = \"m\"\n[model.b]\nkeyless = true\n",
    );
    let resolved = resolve(&cfg, &["a", "b", "openai"]);
    let (chain, warnings) = build_failover_chain(&cfg, &resolved);
    let names: Vec<&str> = chain.iter().map(|(n, _)| n.as_str()).collect();
    assert_eq!(names, ["b", "a"], "the order is kept");
    assert_eq!(warnings, ["openai: skipped, no api_key configured"]);
}

#[test]
fn a_preset_that_needs_a_key_cannot_be_marked_keyless() {
    let cfg = cfg_from(
        "[failover]\norder = [\"openai\"]\n\
         [model.openai]\napi_key = \"sk-test\"\nmodel = \"gpt-5\"\nkeyless = true\n",
    );
    let resolved = resolve(&cfg, &["openai"]);
    let (chain, warnings) = build_failover_chain(&cfg, &resolved);
    assert!(warnings.is_empty(), "{warnings:?}");
    assert_eq!(chain.len(), 1);
    assert!(!chain[0].1.keyless);
    assert_eq!(chain[0].1.api_key.as_deref(), Some("sk-test"));
}

#[test]
fn identity_wins_over_what_was_resolved() {
    let cfg = cfg_from("[failover]\norder = []\n[model.x]\nkeyless = true\n");
    let resolved = SamplerConfig {
        base_url: "http://elsewhere".into(),
        api_key: Some("k".into()),
        api_backend: ApiBackend::Responses,
        extra_headers: vec![
            ("a".into(), "1".into()),
            ("anthropic-version".into(), "old".into()),
            ("b".into(), "2".into()),
        ],
        ..Default::default()
    };
    let used = layer_provider(&cfg, "Anthropic", &resolved);
    assert_eq!(used.base_url, "https://api.anthropic.com/v1");
    assert_eq!(used.api_backend, ApiBackend::Messages);
    assert_eq!(used.auth_scheme, AuthScheme::XApiKey);
    assert_eq!(
        used.extra_headers,
        [
            ("a".to_string(), "1".to_string()),
            ("anthropic-version".to_string(), "2023-06-01".to_string()),
            ("b".to_string(), "2".to_string()),
        ]
    );
    assert_eq!(used.api_key.as_deref(), Some("k"));
    let keyless = layer_provider(&cfg, "x", &resolved);
    assert!(keyless.keyless && keyless.api_key.is_none());
    assert_eq!(keyless.base_url, "http://elsewhere");
}
